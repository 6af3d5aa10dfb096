//! The template document model and its version-guarded loader.
//!
//! A template document carries a version tag, the declared arguments, and
//! the rules mapping in document order with each rule's payload still raw.
//! [`load_template`] first peeks only at the version — an unsupported
//! version is its own error, not a generic parse failure — and only then
//! validates the version's schema. Unknown rule names are kept as they
//! stand: they fail at dispatch time, not at parse time.

use vstd::prelude::*;
use vstd::string::*;

use crate::errors::CircuitTemplateError;
use crate::set_management_type::CircuitManagement;
use crate::text::str_eq;
use crate::yaml::{entries_view, parse_yaml, spec_map_get, yaml_tree_of, NodeV, YamlNode};

verus! {

/// One declared template argument: name, required flag, optional default.
#[derive(Debug)]
pub struct YamlRuleArgument {
    name: String,
    required: bool,
    default_value: Option<String>,
}

/// The mathematical image of a declared argument.
pub struct DeclV {
    pub name: Seq<char>,
    pub required: bool,
    pub default_value: Option<Seq<char>>,
}

impl View for YamlRuleArgument {
    type V = DeclV;

    closed spec fn view(&self) -> DeclV {
        DeclV {
            name: self.name@,
            required: self.required,
            default_value: match self.default_value {
                Some(s) => Some(s@),
                None => None,
            },
        }
    }
}

impl DeepView for YamlRuleArgument {
    type V = DeclV;

    open spec fn deep_view(&self) -> DeclV {
        self.view()
    }
}

impl YamlRuleArgument {
    /// The declared name.
    pub fn name(&self) -> (r: String)
        ensures
            r@ == self@.name,
    {
        self.name.clone()
    }

    /// Whether the caller must supply a value.
    pub fn required(&self) -> (r: bool)
        ensures
            r == self@.required,
    {
        self.required
    }

    /// The declared default, when there is one.
    pub fn default_value(&self) -> (r: Option<String>)
        ensures
            match r {
                Some(s) => self@.default_value == Some(s@),
                None => self@.default_value is None,
            },
    {
        match &self.default_value {
            Some(s) => Some(s.clone()),
            None => None,
        }
    }
}

/// An argument declaration node: a mapping with a scalar `name`, a boolean
/// `required`, and an optional scalar `default` (a null counts as absent).
pub open spec fn spec_arg_decl(n: NodeV) -> Option<DeclV> {
    match n {
        NodeV::Mapping(es) => match (spec_map_get(es, "name"@), spec_map_get(es, "required"@)) {
            (Some(NodeV::Scalar(name)), Some(NodeV::Bool(required))) => match spec_map_get(
                es,
                "default"@,
            ) {
                Some(NodeV::Scalar(d)) => Some(
                    DeclV { name, required, default_value: Some(d) },
                ),
                Some(NodeV::Null) => Some(DeclV { name, required, default_value: None }),
                None => Some(DeclV { name, required, default_value: None }),
                _ => None,
            },
            _ => None,
        },
        _ => None,
    }
}

/// A sequence of argument declaration nodes, element-wise.
pub open spec fn spec_arg_decls(items: Seq<NodeV>) -> Option<Seq<DeclV>>
    decreases items.len(),
{
    if items.len() == 0 {
        Some(Seq::<DeclV>::empty())
    } else {
        match spec_arg_decl(items[0]) {
            Some(d) => match spec_arg_decls(items.drop_first()) {
                Some(r) => Some(seq![d] + r),
                None => None,
            },
            None => None,
        }
    }
}

/// Reads one argument declaration node.
fn arg_decl_from_node(n: &YamlNode) -> (r: Option<YamlRuleArgument>)
    ensures
        match r {
            Some(d) => spec_arg_decl(n@) == Some(d@),
            None => spec_arg_decl(n@) is None,
        },
{
    let name_node = match n.get("name") {
        Some(x) => x,
        None => {
            return None;
        },
    };
    let required_node = match n.get("required") {
        Some(x) => x,
        None => {
            return None;
        },
    };
    let name = match name_node.as_scalar() {
        Some(s) => s.clone(),
        None => {
            return None;
        },
    };
    let required = match required_node.as_bool() {
        Some(b) => b,
        None => {
            return None;
        },
    };
    match n.get("default") {
        Some(d) => match d {
            YamlNode::Scalar(s) => Some(
                YamlRuleArgument { name, required, default_value: Some(s.clone()) },
            ),
            YamlNode::Null => Some(YamlRuleArgument { name, required, default_value: None }),
            _ => None,
        },
        None => Some(YamlRuleArgument { name, required, default_value: None }),
    }
}

/// The rules of a document: rule names mapped to their raw payloads, in
/// document order. An unknown name is kept — it fails at dispatch, not
/// here.
#[derive(Debug)]
pub struct YamlRules {
    entries: Vec<(String, YamlNode)>,
}

impl View for YamlRules {
    type V = Seq<(Seq<char>, NodeV)>;

    closed spec fn view(&self) -> Seq<(Seq<char>, NodeV)> {
        entries_view(self.entries@)
    }
}

/// The validated `set-management-type` payload of a document.
pub type YamlCircuitManagement = CircuitManagement;

/// The validated `create-services` payload of a document.
pub type YamlCreateServices = crate::create_services::CreateServices;

impl YamlRules {
    /// The rule entries in document order: each name with its raw payload.
    pub fn entries(&self) -> (r: &Vec<(String, YamlNode)>)
        ensures
            self@ == entries_view(r@),
    {
        &self.entries
    }

    /// The `set-management-type` payload, when the document declares that
    /// rule and its payload matches the rule's schema.
    pub fn set_management_type(&self) -> (r: Option<YamlCircuitManagement>)
        ensures
            match spec_map_get(self@, "set-management-type"@) {
                Some(p) => match r {
                    Some(cm) => crate::set_management_type::spec_management_payload(p) == Some(
                        cm@,
                    ),
                    None => crate::set_management_type::spec_management_payload(p) is None,
                },
                None => r is None,
            },
    {
        let node = match self.get("set-management-type") {
            Some(n) => n,
            None => {
                return None;
            },
        };
        match CircuitManagement::from_payload(node) {
            Ok(cm) => Some(cm),
            Err(_) => None,
        }
    }

    /// The `create-services` payload, when the document declares that rule
    /// and its payload matches the rule's schema.
    pub fn create_services(&self) -> (r: Option<YamlCreateServices>)
        ensures
            match spec_map_get(self@, "create-services"@) {
                Some(p) => match r {
                    Some(cs) => crate::create_services::spec_create_services_payload(p) == Some(
                        cs@,
                    ),
                    None => crate::create_services::spec_create_services_payload(p) is None,
                },
                None => r is None,
            },
    {
        let node = match self.get("create-services") {
            Some(n) => n,
            None => {
                return None;
            },
        };
        match YamlCreateServices::from_payload(node) {
            Ok(cs) => Some(cs),
            Err(_) => None,
        }
    }

    /// The raw payload under `name`, when the document declares that rule.
    pub fn get<'a>(&'a self, name: &str) -> (r: Option<&'a YamlNode>)
        ensures
            match r {
                Some(n) => spec_map_get(self@, name@) == Some(n@),
                None => spec_map_get(self@, name@) is None,
            },
    {
        let ghost es = self@;
        proof {
            crate::yaml::lemma_entries_view(self.entries@);
        }
        let mut i: usize = 0;
        while i < self.entries.len()
            invariant
                i <= self.entries.len(),
                es == self@,
                es == entries_view(self.entries@),
                es.len() == self.entries@.len(),
                forall|j: int| 0 <= j < i ==> (#[trigger] es[j]).0 != name@,
            decreases self.entries.len() - i,
        {
            proof {
                crate::yaml::lemma_entries_view(self.entries@);
            }
            if str_eq(self.entries[i].0.as_str(), name) {
                proof {
                    crate::yaml::lemma_map_get_skip(es, name@, i as int);
                    assert(es.skip(i as int)[0] == es[i as int]);
                }
                return Some(&self.entries[i].1);
            }
            i += 1;
        }
        proof {
            crate::yaml::lemma_map_get_skip(es, name@, es.len() as int);
            assert(es.skip(es.len() as int) =~= Seq::<(Seq<char>, NodeV)>::empty());
        }
        None
    }
}

/// A version 0.1 template document: the version tag, the declared
/// arguments, and the rules in document order.
#[derive(Debug)]
pub struct YamlCircuitCreateTemplate {
    version: String,
    args: Vec<YamlRuleArgument>,
    rules: YamlRules,
}

/// The mathematical image of a document.
pub struct DocV {
    pub version: Seq<char>,
    pub args: Seq<DeclV>,
    pub rules: Seq<(Seq<char>, NodeV)>,
}

impl View for YamlCircuitCreateTemplate {
    type V = DocV;

    closed spec fn view(&self) -> DocV {
        DocV { version: self.version@, args: self.args.deep_view(), rules: self.rules@ }
    }
}

impl YamlCircuitCreateTemplate {
    /// The document's version tag.
    pub fn version(&self) -> (r: String)
        ensures
            r@ == self@.version,
    {
        self.version.clone()
    }

    /// The declared arguments, in order.
    pub fn args(&self) -> (r: &Vec<YamlRuleArgument>)
        ensures
            r.deep_view() == self@.args,
    {
        &self.args
    }

    /// The rules, in document order.
    pub fn rules(&self) -> (r: &YamlRules)
        ensures
            r@ == self@.rules,
    {
        &self.rules
    }

    /// Takes the document apart into its rule entries, document order kept.
    pub fn into_rule_entries(self) -> (r: Vec<(String, YamlNode)>)
        ensures
            entries_view(r@) == self@.rules,
    {
        let YamlRules { entries } = self.rules;
        entries
    }
}

/// A template document, by version; only v0.1 exists.
#[derive(Debug)]
pub enum Template {
    V0_1(YamlCircuitCreateTemplate),
}

/// The version tag of a document node.
pub open spec fn spec_version(n: NodeV) -> Option<Seq<char>> {
    match n {
        NodeV::Mapping(es) => match spec_map_get(es, "version"@) {
            Some(NodeV::Scalar(v)) => Some(v),
            _ => None,
        },
        _ => None,
    }
}

/// The `args` list of a document node, when it is a mapping that has one.
pub open spec fn spec_doc_args_node(n: NodeV) -> Option<Seq<NodeV>> {
    match n {
        NodeV::Mapping(es) => match spec_map_get(es, "args"@) {
            Some(NodeV::List(items)) => Some(items),
            _ => None,
        },
        _ => None,
    }
}

/// The v0.1 document schema: a mapping with a scalar `version`, an `args`
/// list of declarations, and a `rules` mapping.
pub open spec fn spec_document(n: NodeV) -> Option<DocV> {
    match n {
        NodeV::Mapping(es) => match (
            spec_map_get(es, "version"@),
            spec_map_get(es, "args"@),
            spec_map_get(es, "rules"@),
        ) {
            (Some(NodeV::Scalar(v)), Some(NodeV::List(items)), Some(NodeV::Mapping(rules))) => match
                spec_arg_decls(items) {
                Some(decls) => Some(DocV { version: v, args: decls, rules }),
                None => None,
            },
            _ => None,
        },
        _ => None,
    }
}

/// Loads a template from its text: the version is checked first, so an
/// unsupported version is reported as such even when the rest of the
/// document would not parse; then the v0.1 schema is validated.
pub fn load_template(data: &[u8]) -> (r: Result<Template, CircuitTemplateError>)
    ensures
        r is Ok <==> (yaml_tree_of(data@) matches Some(t) && spec_version(t) == Some("v0.1"@)
            && spec_document(t) is Some),
        r matches Ok(t) ==> (t matches Template::V0_1(doc) && Some(doc@) == spec_document(
            yaml_tree_of(data@)->Some_0,
        )),
        r matches Err(e) ==> (e is Parse || e is UnsupportedVersion),
        r matches Err(e) ==> ((yaml_tree_of(data@) matches Some(t) && spec_version(t) is Some
            && spec_version(t) != Some("v0.1"@)) <==> e is UnsupportedVersion),
{
    let node = match parse_yaml(data) {
        Ok(n) => n,
        Err(msg) => {
            return Err(CircuitTemplateError::Parse(msg));
        },
    };
    let ghost tree = node@;
    let version = match node.get("version") {
        Some(v) => match v.as_scalar() {
            Some(s) => s.clone(),
            None => {
                return Err(
                    CircuitTemplateError::Parse(
                        String::from_str("the template version must be a string"),
                    ),
                );
            },
        },
        None => {
            return Err(
                CircuitTemplateError::Parse(String::from_str("the template names no version")),
            );
        },
    };
    if !str_eq(version.as_str(), "v0.1") {
        return Err(CircuitTemplateError::UnsupportedVersion(version));
    }
    let args_node = match node.get("args") {
        Some(n) => n,
        None => {
            return Err(
                CircuitTemplateError::Parse(String::from_str("the template declares no args")),
            );
        },
    };
    let rules_node = match node.get("rules") {
        Some(n) => n,
        None => {
            return Err(
                CircuitTemplateError::Parse(String::from_str("the template declares no rules")),
            );
        },
    };
    let items = match args_node.as_list() {
        Some(items) => items,
        None => {
            return Err(
                CircuitTemplateError::Parse(String::from_str("the args entry must be a list")),
            );
        },
    };
    let ghost iv = crate::yaml::nodes_view(items@);
    proof {
        crate::yaml::lemma_nodes_view(items@);
        assert(iv.skip(0) =~= iv);
        match spec_arg_decls(iv) {
            Some(r) => {
                assert(Seq::<DeclV>::empty() + r =~= r);
            },
            None => {},
        }
    }
    let mut args: Vec<YamlRuleArgument> = Vec::new();
    proof {
        assert(args.deep_view() =~= Seq::<DeclV>::empty());
    }
    let mut i: usize = 0;
    while i < items.len()
        invariant
            i <= items.len(),
            yaml_tree_of(data@) == Some(tree),
            spec_version(tree) == Some("v0.1"@),
            spec_doc_args_node(tree) == Some(iv),
            iv == crate::yaml::nodes_view(items@),
            iv.len() == items@.len(),
            forall|j: int| 0 <= j < items@.len() ==> iv[j] == crate::yaml::node_view(
                #[trigger] items@[j],
            ),
            spec_arg_decls(iv) == (match spec_arg_decls(iv.skip(i as int)) {
                Some(r) => Some(args.deep_view() + r),
                None => None::<Seq<DeclV>>,
            }),
            args.deep_view().len() == i,
        decreases items.len() - i,
    {
        let ghost pre = args.deep_view();
        proof {
            assert(iv.skip(i as int)[0] == iv[i as int]);
        }
        let decl = match arg_decl_from_node(&items[i]) {
            Some(d) => d,
            None => {
                proof {
                    assert(spec_arg_decls(iv.skip(i as int)) is None);
                    assert(spec_arg_decls(iv) is None);
                    assert(spec_document(tree) is None);
                }
                return Err(
                    CircuitTemplateError::Parse(
                        String::from_str(
                            "each declared argument needs a name and a required flag",
                        ),
                    ),
                );
            },
        };
        let ghost dv = decl@;
        args.push(decl);
        proof {
            assert(iv.skip(i as int).drop_first() =~= iv.skip(i as int + 1));
            assert(args.deep_view() =~= pre.push(dv));
            match spec_arg_decls(iv.skip(i as int + 1)) {
                Some(r) => {
                    assert(pre + (seq![dv] + r) =~= args.deep_view() + r);
                },
                None => {},
            }
        }
        i += 1;
    }
    proof {
        assert(iv.skip(items@.len() as int) =~= Seq::<NodeV>::empty());
        let dv = args.deep_view();
        assert(dv + Seq::<DeclV>::empty() =~= dv);
    }
    if rules_node.as_map().is_none() {
        return Err(
            CircuitTemplateError::Parse(String::from_str("the rules entry must be a mapping")),
        );
    }
    let ghost doc_entries = node@->Mapping_0;
    // The checks above borrowed the document node; now take it apart to own
    // the rules mapping.
    let top_entries = match node {
        YamlNode::Mapping(es) => es,
        _ => {
            proof {
                assert(false);
            }
            return Err(
                CircuitTemplateError::Parse(String::from_str("the template must be a mapping")),
            );
        },
    };
    proof {
        crate::yaml::lemma_entries_view(top_entries@);
    }
    let mut k: usize = 0;
    let mut rules_at: Option<usize> = None;
    while k < top_entries.len()
        invariant
            k <= top_entries.len(),
            doc_entries == entries_view(top_entries@),
            doc_entries.len() == top_entries@.len(),
            spec_map_get(doc_entries, "rules"@) is Some,
            match rules_at {
                Some(at) => 0 <= at < top_entries@.len() && doc_entries[at as int].0 == "rules"@
                    && (forall|j: int| 0 <= j < at ==> (#[trigger] doc_entries[j]).0 != "rules"@)
                    && spec_map_get(doc_entries, "rules"@) == Some(doc_entries[at as int].1),
                None => forall|j: int| 0 <= j < k ==> (#[trigger] doc_entries[j]).0 != "rules"@,
            },
        decreases top_entries.len() - k,
    {
        proof {
            crate::yaml::lemma_entries_view(top_entries@);
        }
        if rules_at.is_none() && str_eq(top_entries[k].0.as_str(), "rules") {
            proof {
                crate::yaml::lemma_map_get_skip(doc_entries, "rules"@, k as int);
                assert(doc_entries.skip(k as int)[0] == doc_entries[k as int]);
            }
            rules_at = Some(k);
        }
        k += 1;
    }
    let at = match rules_at {
        Some(at) => at,
        None => {
            proof {
                crate::yaml::lemma_map_get_skip(doc_entries, "rules"@, doc_entries.len() as int);
                assert(doc_entries.skip(doc_entries.len() as int) =~= Seq::<
                    (Seq<char>, NodeV),
                >::empty());
            }
            return Err(
                CircuitTemplateError::Parse(String::from_str("the template declares no rules")),
            );
        },
    };
    let mut top_entries = top_entries;
    let pair = top_entries.remove(at);
    proof {
        crate::yaml::lemma_entries_view(top_entries@);
    }
    let rule_entries = match pair.1 {
        YamlNode::Mapping(es) => es,
        _ => {
            proof {
                assert(false);
            }
            return Err(
                CircuitTemplateError::Parse(String::from_str("the rules entry must be a mapping")),
            );
        },
    };
    Ok(
        Template::V0_1(
            YamlCircuitCreateTemplate {
                version,
                args,
                rules: YamlRules { entries: rule_entries },
            },
        ),
    )
}

} // verus!
