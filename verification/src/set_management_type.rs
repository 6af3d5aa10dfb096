//! The `set-management-type` rule: copies one declared string onto the
//! circuit builder's management-type field.

use vstd::prelude::*;
use vstd::string::*;

use crate::errors::CircuitTemplateError;
use crate::messages::{CircuitBuilderV, CreateCircuitBuilder};
use crate::yaml::{spec_map_get, NodeV, YamlNode};

verus! {

/// The `set-management-type` payload schema: a mapping holding the key
/// `management-type` with a scalar value.
pub open spec fn spec_management_payload(n: NodeV) -> Option<Seq<char>> {
    match n {
        NodeV::Mapping(es) => match spec_map_get(es, "management-type"@) {
            Some(NodeV::Scalar(s)) => Some(s),
            _ => None,
        },
        _ => None,
    }
}

/// The validated `set-management-type` payload: the management type to set.
#[derive(Debug)]
pub struct CircuitManagement {
    management_type: String,
}

impl View for CircuitManagement {
    type V = Seq<char>;

    closed spec fn view(&self) -> Seq<char> {
        self.management_type@
    }
}

impl CircuitManagement {
    /// A payload with the given management type.
    pub fn new(management_type: &str) -> (r: CircuitManagement)
        ensures
            r@ == management_type@,
    {
        CircuitManagement { management_type: String::from_str(management_type) }
    }

    /// The management type this payload sets.
    pub fn management_type(&self) -> (r: String)
        ensures
            r@ == self@,
    {
        self.management_type.clone()
    }

    /// Validates a `set-management-type` payload node against the rule's
    /// schema. Succeeds exactly when the payload matches
    /// [`spec_management_payload`].
    pub fn from_payload(payload: &YamlNode) -> (r: Result<CircuitManagement, CircuitTemplateError>)
        ensures
            r is Ok <==> spec_management_payload(payload@) is Some,
            r matches Ok(cm) ==> spec_management_payload(payload@) == Some(cm@),
            r matches Err(e) ==> e is PayloadFormat,
    {
        let node = match payload.get("management-type") {
            Some(n) => n,
            None => {
                return Err(
                    CircuitTemplateError::PayloadFormat(
                        String::from_str(
                            "set-management-type expects a management-type entry",
                        ),
                    ),
                );
            },
        };
        match node.as_scalar() {
            Some(s) => Ok(CircuitManagement { management_type: s.clone() }),
            None => Err(
                CircuitTemplateError::PayloadFormat(
                    String::from_str("the management-type value must be a string"),
                ),
            ),
        }
    }

    /// Applies the rule: the builder with its management type set to the
    /// declared string, every other field unchanged.
    pub fn apply_rule(&self, builder: CreateCircuitBuilder) -> (r: Result<
        CreateCircuitBuilder,
        CircuitTemplateError,
    >)
        ensures
            r is Ok,
            r matches Ok(b) ==> (b@ == CircuitBuilderV {
                circuit_management_type: Some(self@),
                ..builder@
            }),
    {
        Ok(builder.with_circuit_management_type(self.management_type.as_str()))
    }
}

/// The `set-management-type` rule as a registry entry: its stable name and
/// payload application from raw rule bytes.
#[derive(Debug)]
pub struct CircuitManagementTypeRule {
    name: String,
}

impl Default for CircuitManagementTypeRule {
    /// The rule under its stable registry name.
    fn default() -> (r: Self)
        ensures
            r.name_is() == "set-management-type"@,
    {
        CircuitManagementTypeRule { name: String::from_str("set-management-type") }
    }
}

impl CircuitManagementTypeRule {
    /// The rule's registry name, as a character sequence.
    pub closed spec fn name_is(&self) -> Seq<char> {
        self.name@
    }

    /// The rule's registry name.
    pub fn name(&self) -> (r: String)
        ensures
            r@ == self.name_is(),
    {
        self.name.clone()
    }

    /// The rule declares no arguments of its own.
    pub fn get_arguments(&self) -> (r: Vec<crate::args::RuleArgument>)
        ensures
            r.deep_view().len() == 0,
    {
        Vec::new()
    }

    /// Applies the rule to a raw YAML payload: parses it, validates it
    /// against the rule's schema, and sets the management type.
    pub fn apply(&self, values: &[u8], builder: CreateCircuitBuilder) -> (r: Result<
        CreateCircuitBuilder,
        CircuitTemplateError,
    >)
        ensures
            r is Ok <==> (crate::yaml::yaml_tree_of(values@) matches Some(t)
                && spec_management_payload(t) is Some),
            r matches Ok(b) ==> (b@ == CircuitBuilderV {
                circuit_management_type: Some(
                    spec_management_payload(
                        crate::yaml::yaml_tree_of(values@)->Some_0,
                    )->Some_0,
                ),
                ..builder@
            }),
    {
        let node = match crate::yaml::parse_yaml(values) {
            Ok(n) => n,
            Err(msg) => {
                return Err(CircuitTemplateError::Parse(msg));
            },
        };
        let cm = match CircuitManagement::from_payload(&node) {
            Ok(cm) => cm,
            Err(e) => {
                return Err(e);
            },
        };
        cm.apply_rule(builder)
    }
}

} // verus!
