//! The circuit-creation request and its builders.
//!
//! A template evaluation accumulates its result in two builders: one for
//! the circuit-level fields and one per service. A builder holds each field
//! as an option; `build` validates that every required field is present and
//! fails with the first missing one, filling documented defaults for the
//! optional ones.

use vstd::prelude::*;
use vstd::string::*;

use crate::errors::BuilderError;

verus! {

/// How peers of a circuit authorize one another.
#[derive(Debug, Clone, Copy, PartialEq, Eq, Structural)]
pub enum AuthorizationType {
    Trust,
}

/// How a circuit's state is persisted.
#[derive(Debug, Clone, Copy, PartialEq, Eq, Structural)]
pub enum PersistenceType {
    Any,
}

/// Which durability a circuit asks of its transports.
#[derive(Debug, Clone, Copy, PartialEq, Eq, Structural)]
pub enum DurabilityType {
    NoDurability,
}

/// How messages are routed inside a circuit.
#[derive(Debug, Clone, Copy, PartialEq, Eq, Structural)]
pub enum RouteType {
    Any,
}

impl Default for PersistenceType {
    /// The persistence used when a circuit does not choose one.
    fn default() -> (r: Self)
        ensures
            r == PersistenceType::Any,
    {
        PersistenceType::Any
    }
}

impl Default for RouteType {
    /// The routing used when a circuit does not choose one.
    fn default() -> (r: Self)
        ensures
            r == RouteType::Any,
    {
        RouteType::Any
    }
}

/// Clones a vector of strings.
pub fn clone_string_vec(v: &Vec<String>) -> (r: Vec<String>)
    ensures
        r@ == v@,
{
    let mut r: Vec<String> = Vec::new();
    let mut i: usize = 0;
    while i < v.len()
        invariant
            i <= v.len(),
            r@ == v@.take(i as int),
        decreases v.len() - i,
    {
        r.push(v[i].clone());
        assert(r@ =~= v@.take(i as int + 1));
        i += 1;
    }
    assert(v@.take(v.len() as int) =~= v@);
    r
}

/// Clones a vector of key-value pairs.
pub fn clone_pairs(v: &Vec<(String, String)>) -> (r: Vec<(String, String)>)
    ensures
        r@ == v@,
{
    let mut r: Vec<(String, String)> = Vec::new();
    let mut i: usize = 0;
    while i < v.len()
        invariant
            i <= v.len(),
            r@ == v@.take(i as int),
        decreases v.len() - i,
    {
        let (k, val) = (&v[i].0, &v[i].1);
        r.push((k.clone(), val.clone()));
        assert((r@[i as int].0, r@[i as int].1) == v@[i as int]);
        assert(r@ =~= v@.take(i as int + 1));
        i += 1;
    }
    assert(v@.take(v.len() as int) =~= v@);
    r
}

/// One node of a circuit: its id and the endpoint it listens on.
#[derive(Debug)]
pub struct SplinterNode {
    pub node_id: String,
    pub endpoint: String,
}

/// The mathematical image of a [`SplinterNode`].
pub struct SplinterNodeV {
    pub node_id: Seq<char>,
    pub endpoint: Seq<char>,
}

impl View for SplinterNode {
    type V = SplinterNodeV;

    open spec fn view(&self) -> SplinterNodeV {
        SplinterNodeV { node_id: self.node_id@, endpoint: self.endpoint@ }
    }
}

impl DeepView for SplinterNode {
    type V = SplinterNodeV;

    open spec fn deep_view(&self) -> SplinterNodeV {
        self.view()
    }
}

impl Clone for SplinterNode {
    /// A clone carries the same fields.
    fn clone(&self) -> (r: Self)
        ensures
            r@ == self@,
    {
        SplinterNode { node_id: self.node_id.clone(), endpoint: self.endpoint.clone() }
    }
}

/// A service of a circuit: a short unique id, a service type, the nodes
/// allowed to run it, and its ordered key-value arguments. Argument keys
/// may repeat: later entries do not replace earlier ones.
#[derive(Debug)]
pub struct SplinterService {
    pub service_id: String,
    pub service_type: String,
    pub allowed_nodes: Vec<String>,
    pub arguments: Vec<(String, String)>,
}

/// The mathematical image of a [`SplinterService`].
pub struct SplinterServiceV {
    pub service_id: Seq<char>,
    pub service_type: Seq<char>,
    pub allowed_nodes: Seq<Seq<char>>,
    pub arguments: Seq<(Seq<char>, Seq<char>)>,
}

impl View for SplinterService {
    type V = SplinterServiceV;

    open spec fn view(&self) -> SplinterServiceV {
        SplinterServiceV {
            service_id: self.service_id@,
            service_type: self.service_type@,
            allowed_nodes: self.allowed_nodes.deep_view(),
            arguments: pairs_view(self.arguments@),
        }
    }
}

impl DeepView for SplinterService {
    type V = SplinterServiceV;

    open spec fn deep_view(&self) -> SplinterServiceV {
        self.view()
    }
}

impl Clone for SplinterService {
    /// A clone carries the same fields.
    fn clone(&self) -> (r: Self)
        ensures
            r@ == self@,
    {
        SplinterService {
            service_id: self.service_id.clone(),
            service_type: self.service_type.clone(),
            allowed_nodes: clone_string_vec(&self.allowed_nodes),
            arguments: clone_pairs(&self.arguments),
        }
    }
}

/// Clones a vector of services.
pub fn clone_services(v: &Vec<SplinterService>) -> (r: Vec<SplinterService>)
    ensures
        r.deep_view() == v.deep_view(),
{
    let mut r: Vec<SplinterService> = Vec::new();
    let mut i: usize = 0;
    while i < v.len()
        invariant
            i <= v.len(),
            v.deep_view().len() == v.len(),
            r.deep_view().len() == i,
            forall|j: int| 0 <= j < i ==> #[trigger] r.deep_view()[j] == v.deep_view()[j],
        decreases v.len() - i,
    {
        let ghost prevv = r@;
        let ghost prevd = r.deep_view();
        r.push(v[i].clone());
        proof {
            assert(v.deep_view()[i as int] == v@[i as int]@);
            assert forall|j: int| 0 <= j < i + 1 implies #[trigger] r.deep_view()[j]
                == v.deep_view()[j] by {
                assert(r.deep_view()[j] == r@[j]@);
                if j < i {
                    assert(r@[j] == prevv[j]);
                    assert(prevd[j] == prevv[j]@);
                }
            }
        }
        i += 1;
    }
    assert(r.deep_view() =~= v.deep_view());
    r
}

/// Clones a vector of nodes.
pub fn clone_nodes(v: &Vec<SplinterNode>) -> (r: Vec<SplinterNode>)
    ensures
        r.deep_view() == v.deep_view(),
{
    let mut r: Vec<SplinterNode> = Vec::new();
    let mut i: usize = 0;
    while i < v.len()
        invariant
            i <= v.len(),
            v.deep_view().len() == v.len(),
            r.deep_view().len() == i,
            forall|j: int| 0 <= j < i ==> #[trigger] r.deep_view()[j] == v.deep_view()[j],
        decreases v.len() - i,
    {
        let ghost prevv = r@;
        let ghost prevd = r.deep_view();
        r.push(v[i].clone());
        proof {
            assert(v.deep_view()[i as int] == v@[i as int]@);
            assert forall|j: int| 0 <= j < i + 1 implies #[trigger] r.deep_view()[j]
                == v.deep_view()[j] by {
                assert(r.deep_view()[j] == r@[j]@);
                if j < i {
                    assert(r@[j] == prevv[j]);
                    assert(prevd[j] == prevv[j]@);
                }
            }
        }
        i += 1;
    }
    assert(r.deep_view() =~= v.deep_view());
    r
}

/// Clones a vector of service builders.
pub fn clone_service_builders(v: &Vec<SplinterServiceBuilder>) -> (r: Vec<SplinterServiceBuilder>)
    ensures
        r.deep_view() == v.deep_view(),
{
    let mut r: Vec<SplinterServiceBuilder> = Vec::new();
    let mut i: usize = 0;
    while i < v.len()
        invariant
            i <= v.len(),
            v.deep_view().len() == v.len(),
            r.deep_view().len() == i,
            forall|j: int| 0 <= j < i ==> #[trigger] r.deep_view()[j] == v.deep_view()[j],
        decreases v.len() - i,
    {
        let ghost prevv = r@;
        let ghost prevd = r.deep_view();
        r.push(v[i].clone());
        proof {
            assert(v.deep_view()[i as int] == v@[i as int]@);
            assert forall|j: int| 0 <= j < i + 1 implies #[trigger] r.deep_view()[j]
                == v.deep_view()[j] by {
                assert(r.deep_view()[j] == r@[j]@);
                if j < i {
                    assert(r@[j] == prevv[j]);
                    assert(prevd[j] == prevv[j]@);
                }
            }
        }
        i += 1;
    }
    assert(r.deep_view() =~= v.deep_view());
    r
}

/// Accumulates the fields of one service.
#[derive(Debug, Default)]
pub struct SplinterServiceBuilder {
    service_id: Option<String>,
    service_type: Option<String>,
    allowed_nodes: Option<Vec<String>>,
    arguments: Option<Vec<(String, String)>>,
}

/// The mathematical image of a [`SplinterServiceBuilder`].
pub struct ServiceBuilderV {
    pub service_id: Option<Seq<char>>,
    pub service_type: Option<Seq<char>>,
    pub allowed_nodes: Option<Seq<Seq<char>>>,
    pub arguments: Option<Seq<(Seq<char>, Seq<char>)>>,
}

/// The view of a sequence of key-value string pairs.
pub open spec fn pairs_view(v: Seq<(String, String)>) -> Seq<(Seq<char>, Seq<char>)> {
    v.map_values(|p: (String, String)| (p.0@, p.1@))
}

impl View for SplinterServiceBuilder {
    type V = ServiceBuilderV;

    closed spec fn view(&self) -> ServiceBuilderV {
        ServiceBuilderV {
            service_id: match self.service_id {
                Some(s) => Some(s@),
                None => None,
            },
            service_type: match self.service_type {
                Some(s) => Some(s@),
                None => None,
            },
            allowed_nodes: match self.allowed_nodes {
                Some(v) => Some(v.deep_view()),
                None => None,
            },
            arguments: match self.arguments {
                Some(v) => Some(pairs_view(v@)),
                None => None,
            },
        }
    }
}

impl DeepView for SplinterServiceBuilder {
    type V = ServiceBuilderV;

    open spec fn deep_view(&self) -> ServiceBuilderV {
        self.view()
    }
}

impl Clone for SplinterServiceBuilder {
    /// A clone carries the same accumulated fields.
    fn clone(&self) -> (r: Self)
        ensures
            r@ == self@,
    {
        SplinterServiceBuilder {
            service_id: match &self.service_id {
                Some(s) => Some(s.clone()),
                None => None,
            },
            service_type: match &self.service_type {
                Some(s) => Some(s.clone()),
                None => None,
            },
            allowed_nodes: match &self.allowed_nodes {
                Some(v) => Some(clone_string_vec(v)),
                None => None,
            },
            arguments: match &self.arguments {
                Some(v) => Some(clone_pairs(v)),
                None => None,
            },
        }
    }
}

impl SplinterServiceBuilder {
    /// A builder with no field set yet.
    pub fn new() -> (r: Self)
        ensures
            r@.service_id is None,
            r@.service_type is None,
            r@.allowed_nodes is None,
            r@.arguments is None,
    {
        SplinterServiceBuilder {
            service_id: None,
            service_type: None,
            allowed_nodes: None,
            arguments: None,
        }
    }

    /// The accumulated service id, when one is set.
    pub fn service_id(&self) -> (r: Option<String>)
        ensures
            match r {
                Some(s) => self@.service_id == Some(s@),
                None => self@.service_id is None,
            },
    {
        match &self.service_id {
            Some(s) => Some(s.clone()),
            None => None,
        }
    }

    /// The accumulated service type, when one is set.
    pub fn service_type(&self) -> (r: Option<String>)
        ensures
            match r {
                Some(s) => self@.service_type == Some(s@),
                None => self@.service_type is None,
            },
    {
        match &self.service_type {
            Some(s) => Some(s.clone()),
            None => None,
        }
    }

    /// The accumulated allowed-node list, when one is set.
    pub fn allowed_nodes(&self) -> (r: Option<Vec<String>>)
        ensures
            match r {
                Some(v) => self@.allowed_nodes == Some(v.deep_view()),
                None => self@.allowed_nodes is None,
            },
    {
        match &self.allowed_nodes {
            Some(v) => Some(clone_string_vec(v)),
            None => None,
        }
    }

    /// The accumulated argument list, when one is set.
    pub fn arguments(&self) -> (r: Option<Vec<(String, String)>>)
        ensures
            match r {
                Some(v) => self@.arguments == Some(pairs_view(v@)),
                None => self@.arguments is None,
            },
    {
        match &self.arguments {
            Some(v) => Some(clone_pairs(v)),
            None => None,
        }
    }

    /// Sets the service id.
    pub fn with_service_id(self, service_id: &str) -> (r: Self)
        ensures
            r@.service_id == Some(service_id@),
            r@.service_type == self@.service_type,
            r@.allowed_nodes == self@.allowed_nodes,
            r@.arguments == self@.arguments,
    {
        SplinterServiceBuilder { service_id: Some(String::from_str(service_id)), ..self }
    }

    /// Sets the service type.
    pub fn with_service_type(self, service_type: &str) -> (r: Self)
        ensures
            r@.service_id == self@.service_id,
            r@.service_type == Some(service_type@),
            r@.allowed_nodes == self@.allowed_nodes,
            r@.arguments == self@.arguments,
    {
        SplinterServiceBuilder { service_type: Some(String::from_str(service_type)), ..self }
    }

    /// Sets the allowed-node list.
    pub fn with_allowed_nodes(self, allowed_nodes: &Vec<String>) -> (r: Self)
        ensures
            r@.service_id == self@.service_id,
            r@.service_type == self@.service_type,
            r@.allowed_nodes == Some(allowed_nodes.deep_view()),
            r@.arguments == self@.arguments,
    {
        SplinterServiceBuilder { allowed_nodes: Some(clone_string_vec(allowed_nodes)), ..self }
    }

    /// Sets the argument list, replacing any earlier one.
    pub fn with_arguments(self, arguments: &Vec<(String, String)>) -> (r: Self)
        ensures
            r@.service_id == self@.service_id,
            r@.service_type == self@.service_type,
            r@.allowed_nodes == self@.allowed_nodes,
            r@.arguments == Some(pairs_view(arguments@)),
    {
        SplinterServiceBuilder { arguments: Some(clone_pairs(arguments)), ..self }
    }

    /// Builds the service. Succeeds exactly when the id, the type and the
    /// allowed nodes are all set; a missing argument list becomes the empty
    /// list.
    pub fn build(self) -> (r: Result<SplinterService, BuilderError>)
        ensures
            r is Ok <==> (self@.service_id is Some && self@.service_type is Some
                && self@.allowed_nodes is Some),
            r matches Ok(s) ==> {
                &&& Some(s.service_id@) == self@.service_id
                &&& Some(s.service_type@) == self@.service_type
                &&& Some(s.allowed_nodes.deep_view()) == self@.allowed_nodes
                &&& pairs_view(s.arguments@) == (match self@.arguments {
                    Some(a) => a,
                    None => Seq::<(Seq<char>, Seq<char>)>::empty(),
                })
            },
            r matches Err(e) ==> e is MissingField,
    {
        let service_id = match self.service_id {
            Some(s) => s,
            None => {
                return Err(
                    BuilderError::MissingField(
                        String::from_str(
                            "Unable to build SplinterService. Missing required field service_id",
                        ),
                    ),
                );
            },
        };
        let service_type = match self.service_type {
            Some(s) => s,
            None => {
                return Err(
                    BuilderError::MissingField(
                        String::from_str(
                            "Unable to build SplinterService. Missing required field service_type",
                        ),
                    ),
                );
            },
        };
        let allowed_nodes = match self.allowed_nodes {
            Some(v) => v,
            None => {
                return Err(
                    BuilderError::MissingField(
                        String::from_str(
                            "Unable to build SplinterService. Missing required field allowed_nodes",
                        ),
                    ),
                );
            },
        };
        let arguments = match self.arguments {
            Some(v) => v,
            None => Vec::new(),
        };
        proof {
            if self@.arguments is None {
                assert(pairs_view(Seq::<(String, String)>::empty())
                    =~= Seq::<(Seq<char>, Seq<char>)>::empty());
            }
        }
        Ok(SplinterService { service_id, service_type, allowed_nodes, arguments })
    }
}

/// A circuit-creation request: the circuit's member nodes, its service
/// roster, and its policies.
#[derive(Debug)]
pub struct CreateCircuit {
    pub circuit_id: String,
    pub roster: Vec<SplinterService>,
    pub members: Vec<SplinterNode>,
    pub authorization_type: AuthorizationType,
    pub persistence: PersistenceType,
    pub durability: DurabilityType,
    pub routes: RouteType,
    pub circuit_management_type: String,
    pub application_metadata: Vec<u8>,
}

/// Accumulates the fields of a circuit-creation request.
#[derive(Debug, Default)]
pub struct CreateCircuitBuilder {
    circuit_id: Option<String>,
    roster: Option<Vec<SplinterService>>,
    members: Option<Vec<SplinterNode>>,
    authorization_type: Option<AuthorizationType>,
    persistence: Option<PersistenceType>,
    durability: Option<DurabilityType>,
    routes: Option<RouteType>,
    circuit_management_type: Option<String>,
    application_metadata: Option<Vec<u8>>,
}

/// The mathematical image of a [`CreateCircuitBuilder`]: the roster and
/// member lists are carried as values, the strings as character sequences.
pub struct CircuitBuilderV {
    pub circuit_id: Option<Seq<char>>,
    pub roster: Option<Seq<SplinterServiceV>>,
    pub members: Option<Seq<SplinterNodeV>>,
    pub authorization_type: Option<AuthorizationType>,
    pub persistence: Option<PersistenceType>,
    pub durability: Option<DurabilityType>,
    pub routes: Option<RouteType>,
    pub circuit_management_type: Option<Seq<char>>,
    pub application_metadata: Option<Seq<u8>>,
}

impl View for CreateCircuitBuilder {
    type V = CircuitBuilderV;

    closed spec fn view(&self) -> CircuitBuilderV {
        CircuitBuilderV {
            circuit_id: match self.circuit_id {
                Some(s) => Some(s@),
                None => None,
            },
            roster: match self.roster {
                Some(v) => Some(v.deep_view()),
                None => None,
            },
            members: match self.members {
                Some(v) => Some(v.deep_view()),
                None => None,
            },
            authorization_type: self.authorization_type,
            persistence: self.persistence,
            durability: self.durability,
            routes: self.routes,
            circuit_management_type: match self.circuit_management_type {
                Some(s) => Some(s@),
                None => None,
            },
            application_metadata: match self.application_metadata {
                Some(v) => Some(v@),
                None => None,
            },
        }
    }
}

impl Clone for CreateCircuitBuilder {
    /// A clone carries the same accumulated fields.
    fn clone(&self) -> (r: Self)
        ensures
            r@ == self@,
    {
        CreateCircuitBuilder {
            circuit_id: match &self.circuit_id {
                Some(s) => Some(s.clone()),
                None => None,
            },
            roster: match &self.roster {
                Some(v) => Some(clone_services(v)),
                None => None,
            },
            members: match &self.members {
                Some(v) => Some(clone_nodes(v)),
                None => None,
            },
            authorization_type: self.authorization_type,
            persistence: self.persistence,
            durability: self.durability,
            routes: self.routes,
            circuit_management_type: match &self.circuit_management_type {
                Some(s) => Some(s.clone()),
                None => None,
            },
            application_metadata: match &self.application_metadata {
                Some(v) => {
                    let mut m: Vec<u8> = Vec::new();
                    let mut i: usize = 0;
                    while i < v.len()
                        invariant
                            i <= v.len(),
                            m@ == v@.take(i as int),
                        decreases v.len() - i,
                    {
                        m.push(v[i]);
                        assert(m@ =~= v@.take(i as int + 1));
                        i += 1;
                    }
                    assert(v@.take(v.len() as int) =~= v@);
                    Some(m)
                },
                None => None,
            },
        }
    }
}

/// The image of a circuit builder with no field set.
pub open spec fn spec_empty_circuit_builder() -> CircuitBuilderV {
    CircuitBuilderV {
        circuit_id: None,
        roster: None,
        members: None,
        authorization_type: None,
        persistence: None,
        durability: None,
        routes: None,
        circuit_management_type: None,
        application_metadata: None,
    }
}

impl CreateCircuitBuilder {
    /// A builder with no field set yet.
    pub fn new() -> (r: Self)
        ensures
            r@ == spec_empty_circuit_builder(),
    {
        CreateCircuitBuilder {
            circuit_id: None,
            roster: None,
            members: None,
            authorization_type: None,
            persistence: None,
            durability: None,
            routes: None,
            circuit_management_type: None,
            application_metadata: None,
        }
    }

    /// The accumulated circuit management type, when one is set.
    pub fn circuit_management_type(&self) -> (r: Option<String>)
        ensures
            match r {
                Some(s) => self@.circuit_management_type == Some(s@),
                None => self@.circuit_management_type is None,
            },
    {
        match &self.circuit_management_type {
            Some(s) => Some(s.clone()),
            None => None,
        }
    }

    /// The accumulated application metadata, when set.
    pub fn application_metadata(&self) -> (r: Option<Vec<u8>>)
        ensures
            match r {
                Some(v) => self@.application_metadata == Some(v@),
                None => self@.application_metadata is None,
            },
    {
        match &self.application_metadata {
            Some(v) => {
                let mut r: Vec<u8> = Vec::new();
                let mut i: usize = 0;
                while i < v.len()
                    invariant
                        i <= v.len(),
                        r@ == v@.take(i as int),
                    decreases v.len() - i,
                {
                    r.push(v[i]);
                    assert(r@ =~= v@.take(i as int + 1));
                    i += 1;
                }
                assert(v@.take(v.len() as int) =~= v@);
                Some(r)
            },
            None => None,
        }
    }

    /// Sets the circuit id.
    pub fn with_circuit_id(self, circuit_id: &str) -> (r: Self)
        ensures
            (r@ == CircuitBuilderV { circuit_id: Some(circuit_id@), ..self@ }),
    {
        CreateCircuitBuilder { circuit_id: Some(String::from_str(circuit_id)), ..self }
    }

    /// Sets the service roster.
    pub fn with_roster(self, services: Vec<SplinterService>) -> (r: Self)
        ensures
            (r@ == CircuitBuilderV { roster: Some(services.deep_view()), ..self@ }),
    {
        CreateCircuitBuilder { roster: Some(services), ..self }
    }

    /// Sets the member-node list.
    pub fn with_members(self, members: Vec<SplinterNode>) -> (r: Self)
        ensures
            (r@ == CircuitBuilderV { members: Some(members.deep_view()), ..self@ }),
    {
        CreateCircuitBuilder { members: Some(members), ..self }
    }

    /// Sets the authorization type.
    pub fn with_authorization_type(self, authorization_type: &AuthorizationType) -> (r: Self)
        ensures
            (r@ == CircuitBuilderV { authorization_type: Some(*authorization_type), ..self@ }),
    {
        CreateCircuitBuilder { authorization_type: Some(*authorization_type), ..self }
    }

    /// Sets the persistence policy.
    pub fn with_persistence(self, persistence: &PersistenceType) -> (r: Self)
        ensures
            (r@ == CircuitBuilderV { persistence: Some(*persistence), ..self@ }),
    {
        CreateCircuitBuilder { persistence: Some(*persistence), ..self }
    }

    /// Sets the durability policy.
    pub fn with_durability(self, durability: &DurabilityType) -> (r: Self)
        ensures
            (r@ == CircuitBuilderV { durability: Some(*durability), ..self@ }),
    {
        CreateCircuitBuilder { durability: Some(*durability), ..self }
    }

    /// Sets the routing policy.
    pub fn with_routes(self, route_type: &RouteType) -> (r: Self)
        ensures
            (r@ == CircuitBuilderV { routes: Some(*route_type), ..self@ }),
    {
        CreateCircuitBuilder { routes: Some(*route_type), ..self }
    }

    /// Sets the circuit management type.
    pub fn with_circuit_management_type(self, circuit_management_type: &str) -> (r: Self)
        ensures
            (r@ == CircuitBuilderV {
                circuit_management_type: Some(circuit_management_type@),
                ..self@
            }),
    {
        CreateCircuitBuilder {
            circuit_management_type: Some(String::from_str(circuit_management_type)),
            ..self
        }
    }

    /// Sets the application metadata.
    pub fn with_application_metadata(self, application_metadata: Vec<u8>) -> (r: Self)
        ensures
            (r@ == CircuitBuilderV { application_metadata: Some(application_metadata@), ..self@ }),
    {
        CreateCircuitBuilder { application_metadata: Some(application_metadata), ..self }
    }

    /// Builds the request. Succeeds exactly when the circuit id, the
    /// roster, the members and the management type are set; authorization
    /// defaults to trust, persistence and routing to their documented
    /// defaults, durability to none, and the metadata to empty.
    pub fn build(self) -> (r: Result<CreateCircuit, BuilderError>)
        ensures
            r is Ok <==> (self@.circuit_id is Some && self@.roster is Some && self@.members is Some
                && self@.circuit_management_type is Some),
            r matches Ok(c) ==> {
                &&& Some(c.circuit_id@) == self@.circuit_id
                &&& Some(c.roster.deep_view()) == self@.roster
                &&& Some(c.members.deep_view()) == self@.members
                &&& c.authorization_type == (match self@.authorization_type {
                    Some(a) => a,
                    None => AuthorizationType::Trust,
                })
                &&& c.persistence == (match self@.persistence {
                    Some(p) => p,
                    None => PersistenceType::Any,
                })
                &&& c.durability == (match self@.durability {
                    Some(d) => d,
                    None => DurabilityType::NoDurability,
                })
                &&& c.routes == (match self@.routes {
                    Some(t) => t,
                    None => RouteType::Any,
                })
                &&& Some(c.circuit_management_type@) == self@.circuit_management_type
                &&& c.application_metadata@ == (match self@.application_metadata {
                    Some(m) => m,
                    None => Seq::<u8>::empty(),
                })
            },
            r matches Err(e) ==> e is MissingField,
    {
        let circuit_id = match self.circuit_id {
            Some(s) => s,
            None => {
                return Err(
                    BuilderError::MissingField(
                        String::from_str(
                            "Unable to build CreateCircuit message. Missing required field circuit_id",
                        ),
                    ),
                );
            },
        };
        let roster = match self.roster {
            Some(v) => v,
            None => {
                return Err(
                    BuilderError::MissingField(
                        String::from_str(
                            "Unable to build CreateCircuit message. Missing required field roster",
                        ),
                    ),
                );
            },
        };
        let members = match self.members {
            Some(v) => v,
            None => {
                return Err(
                    BuilderError::MissingField(
                        String::from_str(
                            "Unable to build CreateCircuit message. Missing required field members",
                        ),
                    ),
                );
            },
        };
        let authorization_type = match self.authorization_type {
            Some(a) => a,
            None => AuthorizationType::Trust,
        };
        let persistence = match self.persistence {
            Some(p) => p,
            None => PersistenceType::default(),
        };
        let durability = match self.durability {
            Some(d) => d,
            None => DurabilityType::NoDurability,
        };
        let routes = match self.routes {
            Some(t) => t,
            None => RouteType::default(),
        };
        let circuit_management_type = match self.circuit_management_type {
            Some(s) => s,
            None => {
                return Err(
                    BuilderError::MissingField(
                        String::from_str(
                            "Unable to build CreateCircuit message. Missing required field circuit_management_type",
                        ),
                    ),
                );
            },
        };
        let application_metadata = match self.application_metadata {
            Some(m) => m,
            None => Vec::new(),
        };
        Ok(
            CreateCircuit {
                circuit_id,
                roster,
                members,
                authorization_type,
                persistence,
                durability,
                routes,
                circuit_management_type,
                application_metadata,
            },
        )
    }
}

/// Accumulates the fields of one circuit node.
#[derive(Debug, Default)]
pub struct SplinterNodeBuilder {
    node_id: Option<String>,
    endpoint: Option<String>,
}

impl SplinterNodeBuilder {
    /// A builder with no field set yet.
    pub fn new() -> (r: Self)
        ensures
            r.node_id_set() is None,
            r.endpoint_set() is None,
    {
        SplinterNodeBuilder { node_id: None, endpoint: None }
    }

    /// The accumulated node id, as a character sequence.
    pub closed spec fn node_id_set(&self) -> Option<Seq<char>> {
        match self.node_id {
            Some(s) => Some(s@),
            None => None,
        }
    }

    /// The accumulated endpoint, as a character sequence.
    pub closed spec fn endpoint_set(&self) -> Option<Seq<char>> {
        match self.endpoint {
            Some(s) => Some(s@),
            None => None,
        }
    }

    /// Sets the node id.
    pub fn with_node_id(self, node_id: &str) -> (r: Self)
        ensures
            r.node_id_set() == Some(node_id@),
            r.endpoint_set() == self.endpoint_set(),
    {
        SplinterNodeBuilder { node_id: Some(String::from_str(node_id)), ..self }
    }

    /// Sets the endpoint.
    pub fn with_endpoint(self, endpoint: &str) -> (r: Self)
        ensures
            r.node_id_set() == self.node_id_set(),
            r.endpoint_set() == Some(endpoint@),
    {
        SplinterNodeBuilder { endpoint: Some(String::from_str(endpoint)), ..self }
    }

    /// Builds the node. Succeeds exactly when both fields are set.
    pub fn build(self) -> (r: Result<SplinterNode, BuilderError>)
        ensures
            r is Ok <==> (self.node_id_set() is Some && self.endpoint_set() is Some),
            r matches Ok(n) ==> Some(n.node_id@) == self.node_id_set() && Some(n.endpoint@)
                == self.endpoint_set(),
            r matches Err(e) ==> e is MissingField,
    {
        let node_id = match self.node_id {
            Some(s) => s,
            None => {
                return Err(
                    BuilderError::MissingField(
                        String::from_str(
                            "Unable to build SplinterNode. Missing required field node_id",
                        ),
                    ),
                );
            },
        };
        let endpoint = match self.endpoint {
            Some(s) => s,
            None => {
                return Err(
                    BuilderError::MissingField(
                        String::from_str(
                            "Unable to build SplinterNode. Missing required field endpoint",
                        ),
                    ),
                );
            },
        };
        Ok(SplinterNode { node_id, endpoint })
    }
}

} // verus!
