//! The `create-services` rule: expands a node list into per-node service
//! builders.
//!
//! The rule reads the required `NODES` argument (a comma-separated node
//! list), mints one service id per node starting from `first-service`, and
//! attaches the declared service arguments to every builder. The reserved
//! pair `peer-services: $(..:ALL_OTHER_SERVICES)` is computed instead of
//! resolved: each service receives the list of all other minted ids, which
//! is why it is attached only after the whole batch's ids are final.

use vstd::prelude::*;
use vstd::string::*;

use crate::args::{
    get_argument_value, is_arg, is_marked, spec_base_name, spec_resolve, spec_stripped, ArgV,
    Resolution, RuleArgument,
};
use crate::base62::{get_next_service_id, spec_id_chain, spec_next_id, IdStep};
use crate::errors::CircuitTemplateError;
use crate::messages::{ServiceBuilderV, SplinterServiceBuilder};
use crate::text::{quoted_list, spec_quoted_list, spec_split, split_on, str_eq};
use crate::yaml::{spec_map_get, NodeV, YamlNode};

verus! {

/// A declared service-argument value: one string, or a list of strings.
#[derive(Debug)]
pub enum ArgValue {
    Single(String),
    List(Vec<String>),
}

/// The mathematical image of an [`ArgValue`].
pub enum ValueV {
    Single(Seq<char>),
    List(Seq<Seq<char>>),
}

impl View for ArgValue {
    type V = ValueV;

    open spec fn view(&self) -> ValueV {
        match self {
            ArgValue::Single(s) => ValueV::Single(s@),
            ArgValue::List(v) => ValueV::List(v.deep_view()),
        }
    }
}

impl DeepView for ArgValue {
    type V = ValueV;

    open spec fn deep_view(&self) -> ValueV {
        self.view()
    }
}

/// One declared service argument: a key and a value.
#[derive(Debug)]
pub struct ServiceArgument {
    key: String,
    value: ArgValue,
}

impl View for ServiceArgument {
    type V = (Seq<char>, ValueV);

    closed spec fn view(&self) -> (Seq<char>, ValueV) {
        (self.key@, self.value@)
    }
}

impl DeepView for ServiceArgument {
    type V = (Seq<char>, ValueV);

    open spec fn deep_view(&self) -> (Seq<char>, ValueV) {
        self.view()
    }
}

impl ServiceArgument {
    /// The argument's key.
    pub fn key(&self) -> (r: String)
        ensures
            r@ == self@.0,
    {
        self.key.clone()
    }

    /// The argument's declared value.
    pub fn value(&self) -> (r: &ArgValue)
        ensures
            r@ == self@.1,
    {
        &self.value
    }

    /// A service argument with the given key and value.
    pub fn new(key: &str, value: ArgValue) -> (r: ServiceArgument)
        ensures
            r@ == (key@, value@),
    {
        ServiceArgument { key: String::from_str(key), value }
    }
}

/// The `create-services` rule's validated payload.
#[derive(Debug)]
pub struct CreateServices {
    service_type: String,
    service_args: Vec<ServiceArgument>,
    first_service: String,
}

/// The mathematical image of a [`CreateServices`] payload.
pub struct CreateServicesV {
    pub service_type: Seq<char>,
    pub service_args: Seq<(Seq<char>, ValueV)>,
    pub first_service: Seq<char>,
}

impl View for CreateServices {
    type V = CreateServicesV;

    closed spec fn view(&self) -> CreateServicesV {
        CreateServicesV {
            service_type: self.service_type@,
            service_args: self.service_args.deep_view(),
            first_service: self.first_service@,
        }
    }
}

impl CreateServices {
    /// The declared service type.
    pub fn service_type(&self) -> (r: String)
        ensures
            r@ == self@.service_type,
    {
        self.service_type.clone()
    }

    /// The declared first service id.
    pub fn first_service(&self) -> (r: String)
        ensures
            r@ == self@.first_service,
    {
        self.first_service.clone()
    }

    /// The declared service arguments, in order.
    pub fn service_args(&self) -> (r: &Vec<ServiceArgument>)
        ensures
            r.deep_view() == self@.service_args,
    {
        &self.service_args
    }

    /// A payload from its parts.
    pub fn new(service_type: &str, service_args: Vec<ServiceArgument>, first_service: &str) -> (r:
        CreateServices)
        ensures
            r@.service_type == service_type@,
            r@.service_args == service_args.deep_view(),
            r@.first_service == first_service@,
    {
        CreateServices {
            service_type: String::from_str(service_type),
            service_args,
            first_service: String::from_str(first_service),
        }
    }
}

/// A list node all of whose elements are scalars, as their texts.
pub open spec fn spec_scalar_list(items: Seq<NodeV>) -> Option<Seq<Seq<char>>>
    decreases items.len(),
{
    if items.len() == 0 {
        Some(Seq::<Seq<char>>::empty())
    } else {
        match items[0] {
            NodeV::Scalar(s) => match spec_scalar_list(items.drop_first()) {
                Some(r) => Some(seq![s] + r),
                None => None,
            },
            _ => None,
        }
    }
}

/// A service-argument value node: a scalar, or a list of scalars.
pub open spec fn spec_value_node(n: NodeV) -> Option<ValueV> {
    match n {
        NodeV::Scalar(s) => Some(ValueV::Single(s)),
        NodeV::List(items) => match spec_scalar_list(items) {
            Some(texts) => Some(ValueV::List(texts)),
            None => None,
        },
        _ => None,
    }
}

/// A service-argument node: a mapping with a scalar `key` and a `value`.
pub open spec fn spec_service_arg(n: NodeV) -> Option<(Seq<char>, ValueV)> {
    match n {
        NodeV::Mapping(es) => match (spec_map_get(es, "key"@), spec_map_get(es, "value"@)) {
            (Some(NodeV::Scalar(k)), Some(v)) => match spec_value_node(v) {
                Some(value) => Some((k, value)),
                None => None,
            },
            _ => None,
        },
        _ => None,
    }
}

/// A sequence of service-argument nodes, element-wise.
pub open spec fn spec_service_args(items: Seq<NodeV>) -> Option<Seq<(Seq<char>, ValueV)>>
    decreases items.len(),
{
    if items.len() == 0 {
        Some(Seq::<(Seq<char>, ValueV)>::empty())
    } else {
        match spec_service_arg(items[0]) {
            Some(a) => match spec_service_args(items.drop_first()) {
                Some(r) => Some(seq![a] + r),
                None => None,
            },
            None => None,
        }
    }
}

/// The `create-services` payload schema: a mapping with scalar
/// `service-type` and `first-service` and a `service-args` list of
/// key-value mappings.
pub open spec fn spec_create_services_payload(n: NodeV) -> Option<CreateServicesV> {
    match n {
        NodeV::Mapping(es) => match (
            spec_map_get(es, "service-type"@),
            spec_map_get(es, "first-service"@),
            spec_map_get(es, "service-args"@),
        ) {
            (Some(NodeV::Scalar(st)), Some(NodeV::Scalar(fs)), Some(NodeV::List(items))) => match
                spec_service_args(items) {
                Some(sargs) => Some(
                    CreateServicesV { service_type: st, service_args: sargs, first_service: fs },
                ),
                None => None,
            },
            _ => None,
        },
        _ => None,
    }
}

/// Reads a value node: a scalar, or a list of scalars.
pub(crate) fn value_from_node(n: &YamlNode) -> (r: Option<ArgValue>)
    ensures
        match r {
            Some(v) => spec_value_node(n@) == Some(v@),
            None => spec_value_node(n@) is None,
        },
{
    if let Some(s) = n.as_scalar() {
        return Some(ArgValue::Single(s.clone()));
    }
    let items = match n.as_list() {
        Some(items) => items,
        None => {
            return None;
        },
    };
    let ghost iv = crate::yaml::nodes_view(items@);
    proof {
        crate::yaml::lemma_nodes_view(items@);
        assert(iv.skip(0) =~= iv);
        match spec_scalar_list(iv) {
            Some(r) => {
                assert(Seq::<Seq<char>>::empty() + r =~= r);
            },
            None => {},
        }
    }
    let mut texts: Vec<String> = Vec::new();
    proof {
        assert(texts.deep_view() =~= Seq::<Seq<char>>::empty());
    }
    let mut i: usize = 0;
    while i < items.len()
        invariant
            i <= items.len(),
            spec_value_node(n@) == (match spec_scalar_list(iv) {
                Some(t) => Some(ValueV::List(t)),
                None => None::<ValueV>,
            }),
            iv == crate::yaml::nodes_view(items@),
            iv.len() == items@.len(),
            forall|j: int| 0 <= j < items@.len() ==> iv[j] == crate::yaml::node_view(
                #[trigger] items@[j],
            ),
            spec_scalar_list(iv) == (match spec_scalar_list(iv.skip(i as int)) {
                Some(r) => Some(texts.deep_view() + r),
                None => None::<Seq<Seq<char>>>,
            }),
            texts.deep_view().len() == i,
        decreases items.len() - i,
    {
        let ghost pre = texts.deep_view();
        let s = match items[i].as_scalar() {
            Some(s) => s,
            None => {
                proof {
                    assert(iv.skip(i as int)[0] == iv[i as int]);
                    assert(spec_scalar_list(iv.skip(i as int)) is None);
                }
                return None;
            },
        };
        texts.push(s.clone());
        proof {
            assert(iv.skip(i as int)[0] == iv[i as int]);
            assert(iv.skip(i as int).drop_first() =~= iv.skip(i as int + 1));
            assert(texts.deep_view() =~= pre.push(s@));
            match spec_scalar_list(iv.skip(i as int + 1)) {
                Some(r) => {
                    assert(pre + (seq![s@] + r) =~= texts.deep_view() + r);
                },
                None => {},
            }
        }
        i += 1;
    }
    proof {
        assert(iv.skip(items@.len() as int) =~= Seq::<NodeV>::empty());
        assert(texts.deep_view() + Seq::<Seq<char>>::empty() =~= texts.deep_view());
    }
    Some(ArgValue::List(texts))
}

/// Reads one service-argument mapping: `key` and `value`.
fn service_arg_from_node(n: &YamlNode) -> (r: Option<ServiceArgument>)
    ensures
        match r {
            Some(a) => spec_service_arg(n@) == Some(a@),
            None => spec_service_arg(n@) is None,
        },
{
    let key_node = match n.get("key") {
        Some(k) => k,
        None => {
            return None;
        },
    };
    let value_node = match n.get("value") {
        Some(v) => v,
        None => {
            return None;
        },
    };
    let key = match key_node.as_scalar() {
        Some(k) => k,
        None => {
            return None;
        },
    };
    match value_from_node(value_node) {
        Some(value) => Some(ServiceArgument { key: key.clone(), value }),
        None => None,
    }
}

impl CreateServices {
    /// Validates a `create-services` payload node against the rule's
    /// schema. Succeeds exactly when the payload matches
    /// [`spec_create_services_payload`].
    pub fn from_payload(payload: &YamlNode) -> (r: Result<CreateServices, CircuitTemplateError>)
        ensures
            r is Ok <==> spec_create_services_payload(payload@) is Some,
            r matches Ok(cs) ==> spec_create_services_payload(payload@) == Some(cs@),
            r matches Err(e) ==> e is PayloadFormat,
    {
        let fail_msg = "create-services expects service-type, first-service and service-args";
        let st_node = match payload.get("service-type") {
            Some(n) => n,
            None => {
                return Err(CircuitTemplateError::PayloadFormat(String::from_str(fail_msg)));
            },
        };
        let fs_node = match payload.get("first-service") {
            Some(n) => n,
            None => {
                return Err(CircuitTemplateError::PayloadFormat(String::from_str(fail_msg)));
            },
        };
        let sa_node = match payload.get("service-args") {
            Some(n) => n,
            None => {
                return Err(CircuitTemplateError::PayloadFormat(String::from_str(fail_msg)));
            },
        };
        let service_type = match st_node.as_scalar() {
            Some(s) => s.clone(),
            None => {
                return Err(CircuitTemplateError::PayloadFormat(String::from_str(fail_msg)));
            },
        };
        let first_service = match fs_node.as_scalar() {
            Some(s) => s.clone(),
            None => {
                return Err(CircuitTemplateError::PayloadFormat(String::from_str(fail_msg)));
            },
        };
        let items = match sa_node.as_list() {
            Some(items) => items,
            None => {
                return Err(CircuitTemplateError::PayloadFormat(String::from_str(fail_msg)));
            },
        };
        let ghost iv = crate::yaml::nodes_view(items@);
        proof {
            crate::yaml::lemma_nodes_view(items@);
            assert(iv.skip(0) =~= iv);
            match spec_service_args(iv) {
                Some(r) => {
                    assert(Seq::<(Seq<char>, ValueV)>::empty() + r =~= r);
                },
                None => {},
            }
        }
        let mut service_args: Vec<ServiceArgument> = Vec::new();
        proof {
            assert(service_args.deep_view() =~= Seq::<(Seq<char>, ValueV)>::empty());
        }
        let mut i: usize = 0;
        while i < items.len()
            invariant
                i <= items.len(),
                spec_create_services_payload(payload@) == (match spec_service_args(iv) {
                    Some(sargs) => Some(CreateServicesV {
                        service_type: service_type@,
                        service_args: sargs,
                        first_service: first_service@,
                    }),
                    None => None::<CreateServicesV>,
                }),
                iv == crate::yaml::nodes_view(items@),
                iv.len() == items@.len(),
                forall|j: int| 0 <= j < items@.len() ==> iv[j] == crate::yaml::node_view(
                    #[trigger] items@[j],
                ),
                spec_service_args(iv) == (match spec_service_args(iv.skip(i as int)) {
                    Some(r) => Some(service_args.deep_view() + r),
                    None => None::<Seq<(Seq<char>, ValueV)>>,
                }),
                service_args.deep_view().len() == i,
            decreases items.len() - i,
        {
            let ghost pre = service_args.deep_view();
            let arg = match service_arg_from_node(&items[i]) {
                Some(a) => a,
                None => {
                    proof {
                        assert(iv.skip(i as int)[0] == iv[i as int]);
                        assert(spec_service_args(iv.skip(i as int)) is None);
                    }
                    return Err(
                        CircuitTemplateError::PayloadFormat(String::from_str(fail_msg)),
                    );
                },
            };
            let ghost av = arg@;
            service_args.push(arg);
            proof {
                assert(iv.skip(i as int)[0] == iv[i as int]);
                assert(iv.skip(i as int).drop_first() =~= iv.skip(i as int + 1));
                assert(service_args.deep_view() =~= pre.push(av));
                match spec_service_args(iv.skip(i as int + 1)) {
                    Some(r) => {
                        assert(pre + (seq![av] + r) =~= service_args.deep_view() + r);
                    },
                    None => {},
                }
            }
            i += 1;
        }
        proof {
            assert(iv.skip(items@.len() as int) =~= Seq::<NodeV>::empty());
            let dv = service_args.deep_view();
            assert(dv + Seq::<(Seq<char>, ValueV)>::empty() =~= dv);
        }
        Ok(CreateServices { service_type, service_args, first_service })
    }
}

/// The reference that the rule resolves to find its node list.
pub open spec fn nodes_token() -> Seq<char> {
    "$(NODES)"@
}

/// Whether `v` is the reserved all-other-services token: a `$(...)`
/// reference whose name, namespace prefix aside, is `all_other_services`.
pub open spec fn is_all_other_services(v: Seq<char>) -> bool {
    is_marked(v) && spec_base_name(spec_stripped(v)) == "all_other_services"@
}

/// Whether `v` is the reserved all-other-services token.
pub fn is_all_other_services_token(v: &str) -> (r: bool)
    ensures
        r == is_all_other_services(v@),
{
    if !is_arg(v) {
        return false;
    }
    let name = match crate::args::strip_arg_marker(v) {
        Ok(name) => name,
        Err(_) => {
            return false;
        },
    };
    let base = crate::args::base_name(name.as_str());
    str_eq(base.as_str(), "all_other_services")
}

/// Whether a declared pair asks for the computed peer list: the key is
/// `peer-services` and the value is the reserved all-other-services token.
pub open spec fn is_peer_entry(e: (Seq<char>, ValueV)) -> bool {
    e.0 == "peer-services"@ && (e.1 matches ValueV::Single(v) && is_all_other_services(v))
}

/// How often the declared service arguments ask for the peer list.
pub open spec fn spec_peer_count(sargs: Seq<(Seq<char>, ValueV)>) -> nat
    decreases sargs.len(),
{
    if sargs.len() == 0 {
        0
    } else {
        (if is_peer_entry(sargs[0]) {
            1nat
        } else {
            0nat
        }) + spec_peer_count(sargs.drop_first())
    }
}

/// Element-wise resolution of a list value, failing on the first element
/// whose resolution fails.
pub open spec fn spec_resolve_list(vs: Seq<Seq<char>>, args: Seq<ArgV>) -> Result<
    Seq<Seq<char>>,
    Resolution,
>
    decreases vs.len(),
{
    if vs.len() == 0 {
        Ok(Seq::<Seq<char>>::empty())
    } else {
        match spec_resolve(vs[0], args) {
            Resolution::Value(x) => match spec_resolve_list(vs.drop_first(), args) {
                Ok(r) => Ok(seq![x] + r),
                Err(e) => Err(e),
            },
            e => Err(e),
        }
    }
}

/// The final string attached for one declared value: a single value
/// resolved, a list resolved element-wise and rendered as a bracketed
/// quoted list.
pub open spec fn spec_entry_value(v: ValueV, args: Seq<ArgV>) -> Result<Seq<char>, Resolution> {
    match v {
        ValueV::Single(s) => match spec_resolve(s, args) {
            Resolution::Value(x) => Ok(x),
            e => Err(e),
        },
        ValueV::List(vs) => match spec_resolve_list(vs, args) {
            Ok(xs) => Ok(spec_quoted_list(xs)),
            Err(e) => Err(e),
        },
    }
}

/// The arguments attached uniformly to every generated service: each
/// declared pair, peer entries aside, with its value resolved — or the
/// first resolution failure.
pub open spec fn spec_extras(sargs: Seq<(Seq<char>, ValueV)>, args: Seq<ArgV>) -> Result<
    Seq<(Seq<char>, Seq<char>)>,
    Resolution,
>
    decreases sargs.len(),
{
    if sargs.len() == 0 {
        Ok(Seq::<(Seq<char>, Seq<char>)>::empty())
    } else if is_peer_entry(sargs[0]) {
        spec_extras(sargs.drop_first(), args)
    } else {
        match spec_entry_value(sargs[0].1, args) {
            Ok(v) => match spec_extras(sargs.drop_first(), args) {
                Ok(rest) => Ok(seq![(sargs[0].0, v)] + rest),
                Err(e) => Err(e),
            },
            Err(e) => Err(e),
        }
    }
}

/// The accumulated arguments of a builder; none counts as the empty list.
pub open spec fn builder_args_of(b: ServiceBuilderV) -> Seq<(Seq<char>, Seq<char>)> {
    match b.arguments {
        Some(a) => a,
        None => Seq::<(Seq<char>, Seq<char>)>::empty(),
    }
}

/// `b` with one argument pair appended.
pub open spec fn with_appended_arg(b: ServiceBuilderV, key: Seq<char>, value: Seq<char>) -> ServiceBuilderV {
    ServiceBuilderV { arguments: Some(builder_args_of(b).push((key, value))), ..b }
}

/// The service ids of a batch of builders, in order.
pub open spec fn builder_ids(bs: Seq<ServiceBuilderV>) -> Seq<Seq<char>> {
    Seq::new(bs.len(), |i: int| bs[i].service_id->Some_0)
}

/// The peer-services arguments a builder at position `i` accumulates:
/// `count` copies of the quoted list of all other ids.
pub open spec fn spec_peer_args(ids: Seq<Seq<char>>, i: int, count: nat) -> Seq<
    (Seq<char>, Seq<char>),
> {
    Seq::new(count, |k: int| ("peer-services"@, spec_quoted_list(ids.remove(i))))
}

/// Whether the rule succeeds: the node list resolves and is not empty, the
/// first id is not empty and made of alphabet characters only, one id per
/// node can be minted, and every declared argument resolves.
pub open spec fn spec_cs_ok(cs: CreateServicesV, args: Seq<ArgV>) -> bool {
    &&& spec_resolve(nodes_token(), args) is Value
    &&& cs.first_service.len() > 0
    &&& crate::base62::all_b62(cs.first_service)
    &&& spec_resolve(nodes_token(), args)->Value_0.len() > 0
    &&& spec_id_chain(cs.first_service, spec_cs_nodes(args).len() as nat) is Some
    &&& spec_extras(cs.service_args, args) is Ok
}

/// The node names the rule expands: the resolved `NODES` value split on
/// commas.
pub open spec fn spec_cs_nodes(args: Seq<ArgV>) -> Seq<Seq<char>> {
    spec_split(spec_resolve(nodes_token(), args)->Value_0, ',')
}

/// What a successful application yields: one builder per node, in node
/// order, carrying the k-th minted id, that node alone, the declared
/// service type, and the peer arguments followed by the resolved declared
/// arguments.
pub open spec fn spec_cs_result(cs: CreateServicesV, args: Seq<ArgV>) -> Seq<ServiceBuilderV> {
    let nodes = spec_cs_nodes(args);
    let ids = spec_id_chain(cs.first_service, nodes.len() as nat)->Some_0;
    let extras = spec_extras(cs.service_args, args)->Ok_0;
    let pc = spec_peer_count(cs.service_args);
    Seq::new(
        nodes.len(),
        |i: int|
            ServiceBuilderV {
                service_id: Some(ids[i]),
                service_type: Some(cs.service_type),
                allowed_nodes: Some(seq![nodes[i]]),
                arguments: Some(spec_peer_args(ids, i, pc) + extras),
            },
    )
}

/// Why and how one application of the rule ends: the built batch, or its
/// first failure, in the order the rule works — the node list resolves,
/// the first id and the node list are checked, the ids are minted, and the
/// declared arguments resolve.
pub enum CsOutcome {
    Built(Seq<ServiceBuilderV>),
    NodesUnresolved(Resolution),
    EmptyFirst,
    EmptyNodes,
    IdStepFailed(IdStep),
    ArgUnresolved(Resolution),
}

/// The first failing step of a chain of `n` ids from `start`.
pub open spec fn spec_chain_failure(start: Seq<char>, n: nat) -> IdStep
    decreases n,
{
    if n == 0 {
        IdStep::Exhausted
    } else {
        match spec_next_id(start) {
            IdStep::Next(t) => spec_chain_failure(t, (n - 1) as nat),
            r => r,
        }
    }
}

/// The outcome of one application of the rule.
pub open spec fn spec_cs_outcome(cs: CreateServicesV, args: Seq<ArgV>) -> CsOutcome {
    match spec_resolve(nodes_token(), args) {
        Resolution::Value(nv) => if cs.first_service.len() == 0 {
            CsOutcome::EmptyFirst
        } else if nv.len() == 0 {
            CsOutcome::EmptyNodes
        } else {
            let nodes = spec_split(nv, ',');
            match spec_id_chain(cs.first_service, nodes.len() as nat) {
                Some(ids) => match spec_extras(cs.service_args, args) {
                    Ok(_) => CsOutcome::Built(spec_cs_result(cs, args)),
                    Err(res) => CsOutcome::ArgUnresolved(res),
                },
                None => CsOutcome::IdStepFailed(
                    spec_chain_failure(cs.first_service, nodes.len() as nat),
                ),
            }
        },
        res => CsOutcome::NodesUnresolved(res),
    }
}

/// Computes the all-other-services peer lists: every builder receives a
/// `peer-services` argument holding the quoted ids of all the other
/// builders in the batch. Fails only when some builder has no id yet — an
/// internal invariant violation, since ids are assigned before any
/// argument is attached.
pub fn all_services(service_builders: Vec<SplinterServiceBuilder>) -> (r: Result<
    Vec<SplinterServiceBuilder>,
    CircuitTemplateError,
>)
    ensures
        r is Ok <==> (forall|i: int|
            0 <= i < service_builders.len() ==> (#[trigger] service_builders.deep_view()[i]).service_id is Some),
        r matches Ok(out) ==> {
            &&& out.deep_view().len() == service_builders.len()
            &&& forall|i: int|
                0 <= i < service_builders.len() ==> #[trigger] out.deep_view()[i]
                    == with_appended_arg(
                    service_builders.deep_view()[i],
                    "peer-services"@,
                    spec_quoted_list(builder_ids(service_builders.deep_view()).remove(i)),
                )
        },
        r matches Err(e) ==> e is Internal,
{
    let ghost bv = service_builders.deep_view();
    let mut ids: Vec<String> = Vec::new();
    let mut i: usize = 0;
    while i < service_builders.len()
        invariant
            i <= service_builders.len(),
            bv == service_builders.deep_view(),
            bv.len() == service_builders.len(),
            ids.deep_view().len() == i,
            forall|j: int|
                0 <= j < i ==> (#[trigger] bv[j]).service_id is Some && ids.deep_view()[j]
                    == bv[j].service_id->Some_0,
        decreases service_builders.len() - i,
    {
        proof {
            assert(bv[i as int] == service_builders@[i as int]@);
        }
        let id = match service_builders[i].service_id() {
            Some(id) => id,
            None => {
                return Err(
                    CircuitTemplateError::Internal(
                        String::from_str(
                            "the service id must be set before the peer-services argument",
                        ),
                    ),
                );
            },
        };
        ids.push(id);
        i += 1;
    }
    proof {
        assert(ids.deep_view() =~= builder_ids(bv));
    }
    let mut out: Vec<SplinterServiceBuilder> = Vec::new();
    let mut k: usize = 0;
    while k < service_builders.len()
        invariant
            k <= service_builders.len(),
            bv == service_builders.deep_view(),
            bv.len() == service_builders.len(),
            ids.deep_view() == builder_ids(bv),
            ids.len() == bv.len(),
            out.deep_view().len() == k,
            forall|j: int|
                0 <= j < k ==> #[trigger] out.deep_view()[j] == with_appended_arg(
                    bv[j],
                    "peer-services"@,
                    spec_quoted_list(builder_ids(bv).remove(j)),
                ),
        decreases service_builders.len() - k,
    {
        let mut peers = crate::messages::clone_string_vec(&ids);
        peers.remove(k);
        proof {
            assert(peers.deep_view() =~= builder_ids(bv).remove(k as int));
        }
        let peer_list = quoted_list(&peers);
        proof {
            assert(bv[k as int] == service_builders@[k as int]@);
        }
        let builder = service_builders[k].clone();
        let mut service_args = match builder.arguments() {
            Some(a) => a,
            None => Vec::new(),
        };
        proof {
            if bv[k as int].arguments is None {
                assert(crate::messages::pairs_view(Seq::<(String, String)>::empty())
                    =~= Seq::<(Seq<char>, Seq<char>)>::empty());
            }
        }
        service_args.push((String::from_str("peer-services"), peer_list));
        let ghost prevv = out@;
        let ghost prevd = out.deep_view();
        out.push(builder.with_arguments(&service_args));
        proof {
            assert(crate::messages::pairs_view(service_args@) =~= builder_args_of(
                bv[k as int],
            ).push(("peer-services"@, spec_quoted_list(builder_ids(bv).remove(k as int)))));
            assert forall|j: int| 0 <= j < k + 1 implies #[trigger] out.deep_view()[j]
                == with_appended_arg(
                bv[j],
                "peer-services"@,
                spec_quoted_list(builder_ids(bv).remove(j)),
            ) by {
                assert(out.deep_view()[j] == out@[j]@);
                if j < k {
                    assert(out@[j] == prevv[j]);
                    assert(prevd[j] == prevv[j]@);
                }
            }
        }
        k += 1;
    }
    Ok(out)
}

/// Law: in a batch with pairwise-distinct ids, the peer list of the service
/// at position `i` — every other id, in order — holds exactly `n - 1`
/// entries, never the service's own id, every other service's id among
/// them; together with the own id the peers make up exactly the batch.
pub proof fn lemma_all_other_services_complete(ids: Seq<Seq<char>>, i: int)
    requires
        0 <= i < ids.len(),
        forall|a: int, b: int| 0 <= a < b < ids.len() ==> ids[a] != ids[b],
    ensures
        ids.remove(i).len() == ids.len() - 1,
        !ids.remove(i).contains(ids[i]),
        forall|j: int| 0 <= j < ids.len() && j != i ==> ids.remove(i).contains(#[trigger] ids[j]),
        forall|x: Seq<char>|
            #[trigger] ids.contains(x) <==> (x == ids[i] || ids.remove(i).contains(x)),
{
    let peers = ids.remove(i);
    assert(!peers.contains(ids[i])) by {
        if peers.contains(ids[i]) {
            let k = choose|k: int| 0 <= k < peers.len() && peers[k] == ids[i];
            if k < i {
                assert(ids[k] == ids[i]);
            } else {
                assert(ids[k + 1] == ids[i]);
            }
        }
    }
    assert forall|j: int| 0 <= j < ids.len() && j != i implies peers.contains(
        #[trigger] ids[j],
    ) by {
        if j < i {
            assert(peers[j] == ids[j]);
        } else {
            assert(peers[j - 1] == ids[j]);
        }
    }
    assert forall|x: Seq<char>| #[trigger] ids.contains(x) <==> (x == ids[i] || peers.contains(
        x,
    )) by {
        if ids.contains(x) {
            let k = choose|k: int| 0 <= k < ids.len() && ids[k] == x;
            if k != i {
                assert(peers.contains(ids[k]));
            }
        }
        if peers.contains(x) {
            let k = choose|k: int| 0 <= k < peers.len() && peers[k] == x;
            if k < i {
                assert(ids[k] == x);
            } else {
                assert(ids[k + 1] == x);
            }
        }
    }
}

/// A chain with `prefix` already minted, or failure carried through.
pub open spec fn chain_prepend(
    prefix: Seq<Seq<char>>,
    rest: Option<Seq<Seq<char>>>,
) -> Option<Seq<Seq<char>>> {
    match rest {
        Some(r) => Some(prefix + r),
        None => None,
    }
}

impl CreateServices {
    /// Applies the rule: one service builder per node named by the resolved
    /// `NODES` argument, ids minted in sequence from `first-service`, the
    /// declared arguments attached to every builder, and every reserved
    /// peer-services entry computed over the whole batch.
    ///
    /// Succeeds exactly when [`spec_cs_ok`] holds of the payload and the
    /// arguments, and then returns exactly [`spec_cs_result`].
    pub fn apply_rule(&self, template_arguments: &Vec<RuleArgument>) -> (r: Result<
        Vec<SplinterServiceBuilder>,
        CircuitTemplateError,
    >)
        ensures
            r is Ok <==> spec_cs_ok(self@, template_arguments.deep_view()),
            r matches Ok(out) ==> out.deep_view() == spec_cs_result(
                self@,
                template_arguments.deep_view(),
            ),
            r matches Err(e) ==> (e is MissingArgument || e is NoDefaultValue
                || e is MissingSignerKey || e is EmptyFirstService || e is EmptyNodeList
                || e is InvalidIdCharacter || e is IdSpaceExhausted),
            r matches Err(e) ==> (match spec_cs_outcome(self@, template_arguments.deep_view()) {
                CsOutcome::Built(_) => false,
                CsOutcome::NodesUnresolved(res) => {
                    &&& (e is MissingArgument <==> res is RequiredMissing)
                    &&& (e is NoDefaultValue <==> res is NoDefault)
                    &&& (e is MissingSignerKey <==> res is SignerMissing)
                },
                CsOutcome::EmptyFirst => e is EmptyFirstService,
                CsOutcome::EmptyNodes => e is EmptyNodeList,
                CsOutcome::IdStepFailed(step) => {
                    &&& (e is IdSpaceExhausted <==> step is Exhausted)
                    &&& (e is InvalidIdCharacter <==> step is Invalid)
                },
                CsOutcome::ArgUnresolved(res) => {
                    &&& (e is MissingArgument <==> res is RequiredMissing)
                    &&& (e is NoDefaultValue <==> res is NoDefault)
                    &&& (e is MissingSignerKey <==> res is SignerMissing)
                },
            }),
    {
        let ghost args = template_arguments.deep_view();
        let nodes_value = match get_argument_value("$(NODES)", template_arguments) {
            Ok(v) => v,
            Err(e) => {
                proof {
                    assert(spec_cs_outcome(self@, args) == CsOutcome::NodesUnresolved(
                        spec_resolve(nodes_token(), args),
                    ));
                }
                return Err(e);
            },
        };
        if self.first_service.as_str().unicode_len() == 0 {
            proof {
                assert(spec_cs_outcome(self@, args) is EmptyFirst);
            }
            return Err(CircuitTemplateError::EmptyFirstService);
        }
        if nodes_value.as_str().unicode_len() == 0 {
            proof {
                assert(spec_cs_outcome(self@, args) is EmptyNodes);
            }
            return Err(CircuitTemplateError::EmptyNodeList);
        }
        let nodes = split_on(nodes_value.as_str(), ',');
        let ghost nv = nodes.deep_view();
        let ghost first = self@.first_service;
        let n = nodes.len();

        // Mint one id per node, stepping the generator once per service.
        let mut service_builders: Vec<SplinterServiceBuilder> = Vec::new();
        let mut service_id = self.first_service.clone();
        let ghost mut minted: Seq<Seq<char>> = Seq::<Seq<char>>::empty();
        let mut k: usize = 0;
        proof {
            assert(chain_prepend(minted, spec_id_chain(first, n as nat)) == spec_id_chain(
                first,
                n as nat,
            )) by {
                match spec_id_chain(first, n as nat) {
                    Some(r) => {
                        assert(minted + r =~= r);
                    },
                    None => {},
                }
            }
        }
        while k < n
            invariant
                k <= n,
                n == nv.len(),
                args == template_arguments.deep_view(),
                spec_resolve(nodes_token(), args) is Value,
                spec_resolve(nodes_token(), args)->Value_0.len() > 0,
                self@.first_service.len() > 0,
                nv == spec_cs_nodes(args),
                nv == nodes.deep_view(),
                nodes.len() == n,
                minted.len() == k,
                first == self@.first_service,
                chain_prepend(minted, spec_id_chain(service_id@, (n - k) as nat)) == spec_id_chain(
                    first,
                    n as nat,
                ),
                spec_chain_failure(first, n as nat) == spec_chain_failure(
                    service_id@,
                    (n - k) as nat,
                ),
                service_builders.deep_view().len() == k,
                forall|j: int|
                    0 <= j < k ==> #[trigger] service_builders.deep_view()[j] == (ServiceBuilderV {
                        service_id: Some(minted[j]),
                        service_type: Some(self@.service_type),
                        allowed_nodes: Some(seq![nv[j]]),
                        arguments: None,
                    }),
            decreases n - k,
        {
            let mut allowed: Vec<String> = Vec::new();
            allowed.push(nodes[k].clone());
            proof {
                assert(allowed.deep_view() =~= seq![nv[k as int]]);
            }
            let builder = SplinterServiceBuilder::new().with_service_id(
                service_id.as_str(),
            ).with_allowed_nodes(&allowed).with_service_type(self.service_type.as_str());
            let ghost prevv = service_builders@;
            let ghost prevd = service_builders.deep_view();
            service_builders.push(builder);
            proof {
                minted = minted.push(service_id@);
                assert forall|j: int| 0 <= j < k + 1 implies #[trigger] service_builders.deep_view()[j]
                    == (ServiceBuilderV {
                    service_id: Some(minted[j]),
                    service_type: Some(self@.service_type),
                    allowed_nodes: Some(seq![nv[j]]),
                    arguments: None,
                }) by {
                    assert(service_builders.deep_view()[j] == service_builders@[j]@);
                    if j < k {
                        assert(service_builders@[j] == prevv[j]);
                        assert(prevd[j] == prevv[j]@);
                        assert(minted[j] == minted.drop_last()[j]);
                    }
                }
            }
            match get_next_service_id(service_id.as_str()) {
                Ok(next) => {
                    proof {
                        let cur = service_id@;
                        assert(spec_chain_failure(cur, (n - k) as nat) == spec_chain_failure(
                            next@,
                            (n - k - 1) as nat,
                        ));
                        assert(spec_id_chain(cur, (n - k) as nat) == (
                        match spec_id_chain(next@, (n - k - 1) as nat) {
                            Some(r) => Some(seq![cur] + r),
                            None => None::<Seq<Seq<char>>>,
                        }));
                        assert(chain_prepend(minted, spec_id_chain(next@, (n - k - 1) as nat))
                            == spec_id_chain(first, n as nat)) by {
                            match spec_id_chain(next@, (n - k - 1) as nat) {
                                Some(r) => {
                                    assert(minted.drop_last() + (seq![cur] + r) =~= minted + r);
                                },
                                None => {},
                            }
                        }
                    }
                    service_id = next;
                },
                Err(e) => {
                    proof {
                        assert(spec_id_chain(service_id@, (n - k) as nat) is None);
                        assert(spec_id_chain(first, n as nat) is None);
                        assert(spec_chain_failure(service_id@, (n - k) as nat) == spec_next_id(
                            service_id@,
                        ));
                        assert(spec_cs_outcome(self@, args) == CsOutcome::IdStepFailed(
                            spec_next_id(service_id@),
                        ));
                    }
                    return Err(e);
                },
            }
            k += 1;
        }
        proof {
            assert(spec_id_chain(first, n as nat) == Some(minted)) by {
                assert(spec_id_chain(service_id@, 0) == Some(Seq::<Seq<char>>::empty()));
                assert(minted + Seq::<Seq<char>>::empty() =~= minted);
            }
            assert(crate::base62::all_b62(first)) by {
                assert(n >= 1);
                assert(spec_next_id(first) is Next);
            }
        }

        // Attach the declared arguments: peer entries are computed over the
        // whole batch at once, the rest resolve into one shared list.
        let ghost sargs = self@.service_args;
        let mut new_service_args: Vec<(String, String)> = Vec::new();
        let ghost mut peer_rounds: nat = 0nat;
        let mut i: usize = 0;
        proof {
            assert(sargs.skip(0) =~= sargs);
            match spec_extras(sargs, args) {
                Ok(r) => {
                    let pv = crate::messages::pairs_view(new_service_args@);
                    assert(pv + r =~= r);
                    assert(pv =~= Seq::<(Seq<char>, Seq<char>)>::empty());
                },
                Err(_) => {},
            }
        }
        while i < self.service_args.len()
            invariant
                i <= self.service_args.len(),
                sargs == self@.service_args,
                sargs.len() == self.service_args.len(),
                args == template_arguments.deep_view(),
                spec_resolve(nodes_token(), args) is Value,
                spec_resolve(nodes_token(), args)->Value_0.len() > 0,
                self@.first_service.len() > 0,
                nv == spec_cs_nodes(args),
                first == self@.first_service,
                spec_id_chain(first, n as nat) == Some(minted),
                n == nv.len(),
                minted.len() == n,
                spec_peer_count(sargs) == peer_rounds + spec_peer_count(sargs.skip(i as int)),
                spec_extras(sargs, args) == (match spec_extras(sargs.skip(i as int), args) {
                    Ok(r) => Ok(crate::messages::pairs_view(new_service_args@) + r),
                    Err(e) => Err::<Seq<(Seq<char>, Seq<char>)>, Resolution>(e),
                }),
                service_builders.deep_view().len() == n,
                forall|j: int|
                    0 <= j < n ==> #[trigger] service_builders.deep_view()[j] == (ServiceBuilderV {
                        service_id: Some(minted[j]),
                        service_type: Some(self@.service_type),
                        allowed_nodes: Some(seq![nv[j]]),
                        arguments: (if peer_rounds == 0 {
                            None
                        } else {
                            Some(spec_peer_args(minted, j, peer_rounds))
                        }),
                    }),
            decreases self.service_args.len() - i,
        {
            proof {
                assert(sargs.skip(i as int)[0] == sargs[i as int]);
                assert(sargs.skip(i as int).drop_first() =~= sargs.skip(i as int + 1));
                assert(sargs[i as int] == self.service_args@[i as int]@);
            }
            let entry = &self.service_args[i];
            let mut handled_as_peer = false;
            if str_eq(entry.key.as_str(), "peer-services") {
                if let ArgValue::Single(v) = &entry.value {
                    if is_all_other_services_token(v.as_str()) {
                        handled_as_peer = true;
                    }
                }
            }
            if handled_as_peer {
                proof {
                    assert(is_peer_entry(sargs[i as int]));
                    assert forall|j: int|
                        0 <= j < n implies (#[trigger] service_builders.deep_view()[j]).service_id is Some by {}
                }
                let ghost pre = service_builders.deep_view();
                service_builders =
                match all_services(service_builders) {
                    Ok(out) => out,
                    Err(e) => {
                        proof {
                            assert(false);
                        }
                        return Err(CircuitTemplateError::Internal(e.message()));
                    },
                };
                proof {
                    assert(builder_ids(pre) =~= minted);
                    peer_rounds = peer_rounds + 1;
                    assert forall|j: int|
                        0 <= j < n implies #[trigger] service_builders.deep_view()[j]
                        == (ServiceBuilderV {
                        service_id: Some(minted[j]),
                        service_type: Some(self@.service_type),
                        allowed_nodes: Some(seq![nv[j]]),
                        arguments: Some(spec_peer_args(minted, j, peer_rounds)),
                    }) by {
                        assert(service_builders.deep_view()[j] == with_appended_arg(
                            pre[j],
                            "peer-services"@,
                            spec_quoted_list(builder_ids(pre).remove(j)),
                        ));
                        assert(builder_args_of(pre[j]).push(
                            ("peer-services"@, spec_quoted_list(minted.remove(j))),
                        ) =~= spec_peer_args(minted, j, peer_rounds));
                    }
                }
            } else {
                proof {
                    assert(!is_peer_entry(sargs[i as int]));
                }
                let resolved: String = match &entry.value {
                    ArgValue::Single(v) => {
                        match get_argument_value(v.as_str(), template_arguments) {
                            Ok(x) => x,
                            Err(e) => {
                                proof {
                                    let res = spec_resolve(v@, args);
                                    assert(spec_extras(sargs.skip(i as int), args) == Err::<
                                        Seq<(Seq<char>, Seq<char>)>,
                                        Resolution,
                                    >(res));
                                    assert(spec_extras(sargs, args) == Err::<
                                        Seq<(Seq<char>, Seq<char>)>,
                                        Resolution,
                                    >(res));
                                    assert(spec_cs_outcome(self@, args)
                                        == CsOutcome::ArgUnresolved(res));
                                }
                                return Err(e);
                            },
                        }
                    },
                    ArgValue::List(vs) => {
                        let ghost vv = vs.deep_view();
                        let mut resolved_items: Vec<String> = Vec::new();
                        let mut m: usize = 0;
                        proof {
                            assert(vv.skip(0) =~= vv);
                            match spec_resolve_list(vv, args) {
                                Ok(r) => {
                                    assert(resolved_items.deep_view() + r =~= r);
                                    assert(resolved_items.deep_view()
                                        =~= Seq::<Seq<char>>::empty());
                                },
                                Err(_) => {},
                            }
                        }
                        while m < vs.len()
                            invariant
                                m <= vs.len(),
                                vv == vs.deep_view(),
                                vv.len() == vs.len(),
                                args == template_arguments.deep_view(),
                                spec_resolve(nodes_token(), args) is Value,
                                spec_resolve(nodes_token(), args)->Value_0.len() > 0,
                                self@.first_service.len() > 0,
                                nv == spec_cs_nodes(args),
                                first == self@.first_service,
                                spec_id_chain(first, nv.len() as nat) == Some(minted),
                                sargs == self@.service_args,
                                0 <= i < sargs.len(),
                                !is_peer_entry(sargs[i as int]),
                                sargs[i as int].1 == ValueV::List(vv),
                                spec_extras(sargs, args) == (match spec_extras(
                                    sargs.skip(i as int),
                                    args,
                                ) {
                                    Ok(r) => Ok(
                                        crate::messages::pairs_view(new_service_args@) + r,
                                    ),
                                    Err(e) => Err::<Seq<(Seq<char>, Seq<char>)>, Resolution>(e),
                                }),
                                spec_resolve_list(vv, args) == (match spec_resolve_list(
                                    vv.skip(m as int),
                                    args,
                                ) {
                                    Ok(r) => Ok(resolved_items.deep_view() + r),
                                    Err(e) => Err::<Seq<Seq<char>>, Resolution>(e),
                                }),
                                resolved_items.deep_view().len() == m,
                            decreases vs.len() - m,
                        {
                            proof {
                                assert(vv.skip(m as int)[0] == vv[m as int]);
                                assert(vv.skip(m as int).drop_first() =~= vv.skip(m as int + 1));
                                assert(vv[m as int] == vs@[m as int]@);
                            }
                            let item = match get_argument_value(
                                vs[m].as_str(),
                                template_arguments,
                            ) {
                                Ok(x) => x,
                                Err(e) => {
                                    proof {
                                        let res = spec_resolve(vs@[m as int]@, args);
                                        assert(spec_resolve_list(vv.skip(m as int), args)
                                            == Err::<Seq<Seq<char>>, Resolution>(res));
                                        assert(spec_resolve_list(vv, args) == Err::<
                                            Seq<Seq<char>>,
                                            Resolution,
                                        >(res));
                                        assert(spec_entry_value(sargs[i as int].1, args)
                                            == Err::<Seq<char>, Resolution>(res));
                                        assert(spec_extras(sargs.skip(i as int), args) == Err::<
                                            Seq<(Seq<char>, Seq<char>)>,
                                            Resolution,
                                        >(res));
                                        assert(spec_extras(sargs, args) == Err::<
                                            Seq<(Seq<char>, Seq<char>)>,
                                            Resolution,
                                        >(res));
                                        assert(spec_cs_outcome(self@, args)
                                            == CsOutcome::ArgUnresolved(res));
                                    }
                                    return Err(e);
                                },
                            };
                            let ghost pre = resolved_items.deep_view();
                            let ghost itemv = item@;
                            resolved_items.push(item);
                            proof {
                                assert(resolved_items.deep_view() =~= pre.push(itemv));
                                match spec_resolve_list(vv.skip(m as int + 1), args) {
                                    Ok(r) => {
                                        assert(pre + (seq![itemv] + r)
                                            =~= resolved_items.deep_view() + r);
                                    },
                                    Err(_) => {},
                                }
                            }
                            m += 1;
                        }
                        proof {
                            assert(vv.skip(vv.len() as int) =~= Seq::<Seq<char>>::empty());
                            let dv = resolved_items.deep_view();
                            assert(dv + Seq::<Seq<char>>::empty() =~= dv);
                        }
                        quoted_list(&resolved_items)
                    },
                };
                let ghost prevp = crate::messages::pairs_view(new_service_args@);
                let ghost keyv = entry.key@;
                let ghost resolvedv = resolved@;
                let ghost prevraw = new_service_args@;
                new_service_args.push((entry.key.clone(), resolved));
                proof {
                    assert(crate::messages::pairs_view(new_service_args@) =~= prevp.push(
                        (keyv, resolvedv),
                    )) by {
                        assert(new_service_args@ =~= prevraw.push(
                            (new_service_args@[prevraw.len() as int].0,
                            new_service_args@[prevraw.len() as int].1),
                        ));
                    }
                    assert(spec_entry_value(sargs[i as int].1, args) == Ok::<
                        Seq<char>,
                        Resolution,
                    >(resolvedv));
                    match spec_extras(sargs.skip(i as int + 1), args) {
                        Ok(r) => {
                            assert(prevp + (seq![(keyv, resolvedv)] + r)
                                =~= crate::messages::pairs_view(new_service_args@) + r);
                        },
                        Err(_) => {},
                    }
                }
            }
            i += 1;
        }
        proof {
            assert(sargs.skip(sargs.len() as int) =~= Seq::<(Seq<char>, ValueV)>::empty());
            let pv = crate::messages::pairs_view(new_service_args@);
            assert(pv + Seq::<(Seq<char>, Seq<char>)>::empty() =~= pv);
        }

        // Every builder receives the shared argument list after whatever
        // peer arguments it already holds.
        let ghost extras = crate::messages::pairs_view(new_service_args@);
        let mut out: Vec<SplinterServiceBuilder> = Vec::new();
        let mut j: usize = 0;
        while j < service_builders.len()
            invariant
                j <= service_builders.len(),
                service_builders.deep_view().len() == n,
                service_builders.len() == n,
                n == nv.len(),
                minted.len() == n,
                extras == crate::messages::pairs_view(new_service_args@),
                forall|t: int|
                    0 <= t < n ==> #[trigger] service_builders.deep_view()[t] == (ServiceBuilderV {
                        service_id: Some(minted[t]),
                        service_type: Some(self@.service_type),
                        allowed_nodes: Some(seq![nv[t]]),
                        arguments: (if peer_rounds == 0 {
                            None
                        } else {
                            Some(spec_peer_args(minted, t, peer_rounds))
                        }),
                    }),
                out.deep_view().len() == j,
                forall|t: int|
                    0 <= t < j ==> #[trigger] out.deep_view()[t] == (ServiceBuilderV {
                        service_id: Some(minted[t]),
                        service_type: Some(self@.service_type),
                        allowed_nodes: Some(seq![nv[t]]),
                        arguments: Some(spec_peer_args(minted, t, peer_rounds) + extras),
                    }),
            decreases service_builders.len() - j,
        {
            proof {
                assert(service_builders.deep_view()[j as int] == service_builders@[j as int]@);
            }
            let builder = service_builders[j].clone();
            let mut service_args = match builder.arguments() {
                Some(a) => a,
                None => Vec::new(),
            };
            let ghost basep = crate::messages::pairs_view(service_args@);
            proof {
                if peer_rounds == 0 {
                    assert(crate::messages::pairs_view(Seq::<(String, String)>::empty())
                        =~= Seq::<(Seq<char>, Seq<char>)>::empty());
                    assert(basep =~= spec_peer_args(minted, j as int, peer_rounds));
                }
            }
            let mut t: usize = 0;
            while t < new_service_args.len()
                invariant
                    t <= new_service_args.len(),
                    extras == crate::messages::pairs_view(new_service_args@),
                    extras.len() == new_service_args.len(),
                    crate::messages::pairs_view(service_args@) == basep + extras.take(t as int),
                decreases new_service_args.len() - t,
            {
                let ghost prevraw = service_args@;
                let ghost prevp = crate::messages::pairs_view(service_args@);
                let (key, value) = (&new_service_args[t].0, &new_service_args[t].1);
                service_args.push((key.clone(), value.clone()));
                proof {
                    assert(crate::messages::pairs_view(service_args@) =~= prevp.push(
                        extras[t as int],
                    )) by {
                        assert(service_args@ =~= prevraw.push(
                            (service_args@[prevraw.len() as int].0,
                            service_args@[prevraw.len() as int].1),
                        ));
                        assert(extras[t as int] == (new_service_args@[t as int].0@,
                        new_service_args@[t as int].1@));
                    }
                    assert(prevp.push(extras[t as int]) =~= basep + extras.take(t as int + 1));
                }
                t += 1;
            }
            proof {
                assert(extras.take(extras.len() as int) =~= extras);
            }
            let ghost prevv = out@;
            let ghost prevd = out.deep_view();
            out.push(builder.with_arguments(&service_args));
            proof {
                assert forall|t: int| 0 <= t < j + 1 implies #[trigger] out.deep_view()[t]
                    == (ServiceBuilderV {
                    service_id: Some(minted[t]),
                    service_type: Some(self@.service_type),
                    allowed_nodes: Some(seq![nv[t]]),
                    arguments: Some(spec_peer_args(minted, t, peer_rounds) + extras),
                }) by {
                    assert(out.deep_view()[t] == out@[t]@);
                    if t < j {
                        assert(out@[t] == prevv[t]);
                        assert(prevd[t] == prevv[t]@);
                    }
                }
            }
            j += 1;
        }
        proof {
            assert(out.deep_view() =~= spec_cs_result(self@, args));
        }
        Ok(out)
    }
}

/// The `create-services` rule as a registry entry: its stable name, the
/// argument it contributes (`nodes`, required), and payload application
/// from raw rule bytes.
#[derive(Debug)]
pub struct CreateServicesRule {
    name: String,
}

impl Default for CreateServicesRule {
    /// The rule under its stable registry name.
    fn default() -> (r: Self)
        ensures
            r.name_is() == "create-services"@,
    {
        CreateServicesRule { name: String::from_str("create-services") }
    }
}

impl CreateServicesRule {
    /// The rule's registry name, as a character sequence.
    pub closed spec fn name_is(&self) -> Seq<char> {
        self.name@
    }

    /// The rule's registry name.
    pub fn name(&self) -> (r: String)
        ensures
            r@ == self.name_is(),
    {
        self.name.clone()
    }

    /// The arguments the rule contributes to the template's surface: the
    /// required `nodes` list.
    pub fn get_arguments(&self) -> (r: Vec<RuleArgument>)
        ensures
            r.deep_view() == seq![
                ArgV { name: "nodes"@, required: true, default_value: None, user_value: None },
            ],
    {
        let mut r: Vec<RuleArgument> = Vec::new();
        r.push(RuleArgument::new_required_argument("nodes"));
        proof {
            assert(r.deep_view()[0] == r@[0]@);
            assert(r.deep_view() =~= seq![
                ArgV { name: "nodes"@, required: true, default_value: None, user_value: None },
            ]);
        }
        r
    }

    /// Applies the rule to a raw YAML payload: parses it, validates it
    /// against the rule's schema, and expands the services.
    pub fn apply(&self, values: &[u8], template_arguments: &Vec<RuleArgument>) -> (r: Result<
        Vec<SplinterServiceBuilder>,
        CircuitTemplateError,
    >)
        ensures
            r is Ok <==> (crate::yaml::yaml_tree_of(values@) matches Some(t)
                && (spec_create_services_payload(t) matches Some(cs) && spec_cs_ok(
                cs,
                template_arguments.deep_view(),
            ))),
            r matches Ok(out) ==> out.deep_view() == spec_cs_result(
                spec_create_services_payload(crate::yaml::yaml_tree_of(values@)->Some_0)->Some_0,
                template_arguments.deep_view(),
            ),
    {
        let node = match crate::yaml::parse_yaml(values) {
            Ok(n) => n,
            Err(msg) => {
                return Err(CircuitTemplateError::Parse(msg));
            },
        };
        let cs = match CreateServices::from_payload(&node) {
            Ok(cs) => cs,
            Err(e) => {
                return Err(e);
            },
        };
        cs.apply_rule(template_arguments)
    }
}

} // verus!
