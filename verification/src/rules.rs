//! Rule registries and ordered rule dispatch.
//!
//! Two registries map rule names to rule kinds: one for rules that mutate
//! the circuit-level builder, one for rules that replace the per-service
//! builder collection. Lookup is exact-match and case-sensitive. A document's
//! rules apply strictly in document order — a later rule reads the state an
//! earlier one left — and a name registered in neither registry fails the
//! whole evaluation with a rule-not-found error.

use vstd::prelude::*;
use vstd::string::*;

use crate::args::{ArgV, RuleArgument};
use crate::create_services::{spec_create_services_payload, spec_cs_ok, spec_cs_result, CreateServices};
use crate::errors::CircuitTemplateError;
use crate::messages::{CircuitBuilderV, CreateCircuitBuilder, ServiceBuilderV, SplinterServiceBuilder};
use crate::set_management_type::{spec_management_payload, CircuitManagement};
use crate::set_metadata::{spec_metadata_string, spec_set_metadata_payload, SetMetadata};
use crate::text::str_eq;
use crate::yaml::{NodeV, YamlNode};

verus! {

/// The built-in circuit-level rules.
#[derive(Debug, Clone, Copy, PartialEq, Eq, Structural)]
pub enum CircuitRuleKind {
    ManagementType,
    Metadata,
}

/// The built-in service-level rules.
#[derive(Debug, Clone, Copy, PartialEq, Eq, Structural)]
pub enum ServiceRuleKind {
    CreateServices,
}

/// The kind registered under `name`: the first entry with that name.
pub open spec fn spec_reg_get<K>(entries: Seq<(Seq<char>, K)>, name: Seq<char>) -> Option<K>
    decreases entries.len(),
{
    if entries.len() == 0 {
        None
    } else if entries[0].0 == name {
        Some(entries[0].1)
    } else {
        spec_reg_get(entries.drop_first(), name)
    }
}

/// A registration: the first entry under `name` is replaced in place, or a
/// new entry is appended when the name is fresh.
pub open spec fn spec_register<K>(entries: Seq<(Seq<char>, K)>, name: Seq<char>, kind: K) -> Seq<
    (Seq<char>, K),
>
    decreases entries.len(),
{
    if entries.len() == 0 {
        seq![(name, kind)]
    } else if entries[0].0 == name {
        seq![(name, kind)] + entries.drop_first()
    } else {
        seq![entries[0]] + spec_register(entries.drop_first(), name, kind)
    }
}

proof fn lemma_reg_get_skip<K>(entries: Seq<(Seq<char>, K)>, name: Seq<char>, i: int)
    requires
        0 <= i <= entries.len(),
        forall|j: int| 0 <= j < i ==> (#[trigger] entries[j]).0 != name,
    ensures
        spec_reg_get(entries, name) == spec_reg_get(entries.skip(i), name),
    decreases i,
{
    if i > 0 {
        let t = entries.drop_first();
        assert(forall|j: int| 0 <= j < i - 1 ==> #[trigger] t[j] == entries[j + 1]);
        lemma_reg_get_skip(t, name, i - 1);
        assert(t.skip(i - 1) =~= entries.skip(i));
    } else {
        assert(entries.skip(0) =~= entries);
    }
}

/// The view of a registry's entries.
pub open spec fn creg_view(v: Seq<(String, CircuitRuleKind)>) -> Seq<(Seq<char>, CircuitRuleKind)> {
    v.map_values(|p: (String, CircuitRuleKind)| (p.0@, p.1))
}

/// The view of a registry's entries.
pub open spec fn sreg_view(v: Seq<(String, ServiceRuleKind)>) -> Seq<(Seq<char>, ServiceRuleKind)> {
    v.map_values(|p: (String, ServiceRuleKind)| (p.0@, p.1))
}

/// The registry of circuit-level rules.
#[derive(Debug)]
pub struct CreateCircuitRules {
    entries: Vec<(String, CircuitRuleKind)>,
}

/// The registry of service-level rules.
#[derive(Debug)]
pub struct ServiceDefinitionRules {
    entries: Vec<(String, ServiceRuleKind)>,
}

impl View for CreateCircuitRules {
    type V = Seq<(Seq<char>, CircuitRuleKind)>;

    closed spec fn view(&self) -> Seq<(Seq<char>, CircuitRuleKind)> {
        creg_view(self.entries@)
    }
}

impl View for ServiceDefinitionRules {
    type V = Seq<(Seq<char>, ServiceRuleKind)>;

    closed spec fn view(&self) -> Seq<(Seq<char>, ServiceRuleKind)> {
        sreg_view(self.entries@)
    }
}

impl CreateCircuitRules {
    /// An empty registry.
    pub fn new() -> (r: Self)
        ensures
            r@.len() == 0,
    {
        let r = CreateCircuitRules { entries: Vec::new() };
        proof {
            assert(r@ =~= Seq::<(Seq<char>, CircuitRuleKind)>::empty());
        }
        r
    }

    /// Registers `kind` under `name`, replacing an earlier registration of
    /// the same name.
    pub fn register_rule(&mut self, name: &str, kind: CircuitRuleKind)
        ensures
            final(self)@ == spec_register(old(self)@, name@, kind),
    {
        let ghost pre = self@;
        proof {
            assert(pre.skip(0) =~= pre);
            assert(pre.take(0) =~= Seq::<(Seq<char>, CircuitRuleKind)>::empty());
            assert(pre.take(0) + spec_register(pre.skip(0), name@, kind) =~= spec_register(
                pre,
                name@,
                kind,
            ));
        }
        let mut i: usize = 0;
        while i < self.entries.len()
            invariant
                i <= self.entries.len(),
                pre == old(self)@,
                self@ == pre,
                pre == creg_view(self.entries@),
                pre.len() == self.entries@.len(),
                forall|j: int| 0 <= j < i ==> (#[trigger] pre[j]).0 != name@,
                spec_register(pre, name@, kind) == pre.take(i as int) + spec_register(
                    pre.skip(i as int),
                    name@,
                    kind,
                ),
            decreases self.entries.len() - i,
        {
            proof {
                assert(pre[i as int] == (self.entries@[i as int].0@, self.entries@[i as int].1));
            }
            if str_eq(self.entries[i].0.as_str(), name) {
                self.entries.set(i, (String::from_str(name), kind));
                proof {
                    assert(pre.skip(i as int)[0] == pre[i as int]);
                    assert(spec_register(pre.skip(i as int), name@, kind) == seq![(name@, kind)]
                        + pre.skip(i as int).drop_first());
                    assert(pre.skip(i as int).drop_first() =~= pre.skip(i as int + 1));
                    assert(creg_view(self.entries@) =~= pre.take(i as int) + (seq![(name@, kind)]
                        + pre.skip(i as int + 1)));
                }
                return ;
            }
            proof {
                assert(pre.skip(i as int)[0] == pre[i as int]);
                assert(pre.skip(i as int).drop_first() =~= pre.skip(i as int + 1));
                assert(spec_register(pre.skip(i as int), name@, kind) == seq![pre[i as int]]
                    + spec_register(pre.skip(i as int + 1), name@, kind));
                assert(pre.take(i as int) + (seq![pre[i as int]] + spec_register(
                    pre.skip(i as int + 1),
                    name@,
                    kind,
                )) =~= pre.take(i as int + 1) + spec_register(pre.skip(i as int + 1), name@, kind));
            }
            i += 1;
        }
        self.entries.push((String::from_str(name), kind));
        proof {
            assert(pre.skip(pre.len() as int) =~= Seq::<(Seq<char>, CircuitRuleKind)>::empty());
            assert(pre.take(pre.len() as int) =~= pre);
            assert(creg_view(self.entries@) =~= pre + seq![(name@, kind)]);
            assert(pre + spec_register(pre.skip(pre.len() as int), name@, kind) =~= pre + seq![
                (name@, kind),
            ]);
        }
    }

    /// Whether a rule is registered under `name`.
    pub fn is_circuit_rule(&self, name: &str) -> (r: bool)
        ensures
            r == (spec_reg_get(self@, name@) is Some),
    {
        self.lookup(name).is_some()
    }

    /// The kind registered under `name`, when there is one.
    pub fn lookup(&self, name: &str) -> (r: Option<CircuitRuleKind>)
        ensures
            r == spec_reg_get(self@, name@),
    {
        let ghost es = self@;
        let mut i: usize = 0;
        while i < self.entries.len()
            invariant
                i <= self.entries.len(),
                es == self@,
                es == creg_view(self.entries@),
                es.len() == self.entries@.len(),
                forall|j: int| 0 <= j < i ==> (#[trigger] es[j]).0 != name@,
            decreases self.entries.len() - i,
        {
            proof {
                assert(es[i as int] == (self.entries@[i as int].0@, self.entries@[i as int].1));
            }
            if str_eq(self.entries[i].0.as_str(), name) {
                proof {
                    lemma_reg_get_skip(es, name@, i as int);
                    assert(es.skip(i as int)[0] == es[i as int]);
                }
                return Some(self.entries[i].1);
            }
            i += 1;
        }
        proof {
            lemma_reg_get_skip(es, name@, es.len() as int);
            assert(es.skip(es.len() as int) =~= Seq::<(Seq<char>, CircuitRuleKind)>::empty());
        }
        None
    }
}

impl ServiceDefinitionRules {
    /// An empty registry.
    pub fn new() -> (r: Self)
        ensures
            r@.len() == 0,
    {
        let r = ServiceDefinitionRules { entries: Vec::new() };
        proof {
            assert(r@ =~= Seq::<(Seq<char>, ServiceRuleKind)>::empty());
        }
        r
    }

    /// Registers `kind` under `name`, replacing an earlier registration of
    /// the same name.
    pub fn register_rule(&mut self, name: &str, kind: ServiceRuleKind)
        ensures
            final(self)@ == spec_register(old(self)@, name@, kind),
    {
        let ghost pre = self@;
        proof {
            assert(pre.skip(0) =~= pre);
            assert(pre.take(0) =~= Seq::<(Seq<char>, ServiceRuleKind)>::empty());
            assert(pre.take(0) + spec_register(pre.skip(0), name@, kind) =~= spec_register(
                pre,
                name@,
                kind,
            ));
        }
        let mut i: usize = 0;
        while i < self.entries.len()
            invariant
                i <= self.entries.len(),
                pre == old(self)@,
                self@ == pre,
                pre == sreg_view(self.entries@),
                pre.len() == self.entries@.len(),
                forall|j: int| 0 <= j < i ==> (#[trigger] pre[j]).0 != name@,
                spec_register(pre, name@, kind) == pre.take(i as int) + spec_register(
                    pre.skip(i as int),
                    name@,
                    kind,
                ),
            decreases self.entries.len() - i,
        {
            proof {
                assert(pre[i as int] == (self.entries@[i as int].0@, self.entries@[i as int].1));
            }
            if str_eq(self.entries[i].0.as_str(), name) {
                self.entries.set(i, (String::from_str(name), kind));
                proof {
                    assert(pre.skip(i as int)[0] == pre[i as int]);
                    assert(spec_register(pre.skip(i as int), name@, kind) == seq![(name@, kind)]
                        + pre.skip(i as int).drop_first());
                    assert(pre.skip(i as int).drop_first() =~= pre.skip(i as int + 1));
                    assert(sreg_view(self.entries@) =~= pre.take(i as int) + (seq![(name@, kind)]
                        + pre.skip(i as int + 1)));
                }
                return ;
            }
            proof {
                assert(pre.skip(i as int)[0] == pre[i as int]);
                assert(pre.skip(i as int).drop_first() =~= pre.skip(i as int + 1));
                assert(spec_register(pre.skip(i as int), name@, kind) == seq![pre[i as int]]
                    + spec_register(pre.skip(i as int + 1), name@, kind));
                assert(pre.take(i as int) + (seq![pre[i as int]] + spec_register(
                    pre.skip(i as int + 1),
                    name@,
                    kind,
                )) =~= pre.take(i as int + 1) + spec_register(pre.skip(i as int + 1), name@, kind));
            }
            i += 1;
        }
        self.entries.push((String::from_str(name), kind));
        proof {
            assert(pre.skip(pre.len() as int) =~= Seq::<(Seq<char>, ServiceRuleKind)>::empty());
            assert(pre.take(pre.len() as int) =~= pre);
            assert(sreg_view(self.entries@) =~= pre + seq![(name@, kind)]);
            assert(pre + spec_register(pre.skip(pre.len() as int), name@, kind) =~= pre + seq![
                (name@, kind),
            ]);
        }
    }

    /// Whether a rule is registered under `name`.
    pub fn is_service_rule(&self, name: &str) -> (r: bool)
        ensures
            r == (spec_reg_get(self@, name@) is Some),
    {
        self.lookup(name).is_some()
    }

    /// The kind registered under `name`, when there is one.
    pub fn lookup(&self, name: &str) -> (r: Option<ServiceRuleKind>)
        ensures
            r == spec_reg_get(self@, name@),
    {
        let ghost es = self@;
        let mut i: usize = 0;
        while i < self.entries.len()
            invariant
                i <= self.entries.len(),
                es == self@,
                es == sreg_view(self.entries@),
                es.len() == self.entries@.len(),
                forall|j: int| 0 <= j < i ==> (#[trigger] es[j]).0 != name@,
            decreases self.entries.len() - i,
        {
            proof {
                assert(es[i as int] == (self.entries@[i as int].0@, self.entries@[i as int].1));
            }
            if str_eq(self.entries[i].0.as_str(), name) {
                proof {
                    lemma_reg_get_skip(es, name@, i as int);
                    assert(es.skip(i as int)[0] == es[i as int]);
                }
                return Some(self.entries[i].1);
            }
            i += 1;
        }
        proof {
            lemma_reg_get_skip(es, name@, es.len() as int);
            assert(es.skip(es.len() as int) =~= Seq::<(Seq<char>, ServiceRuleKind)>::empty());
        }
        None
    }
}

/// What a circuit-level rule makes of the circuit builder: the new builder,
/// or nothing when the payload or an argument is rejected.
pub open spec fn spec_apply_circuit_rule(
    kind: CircuitRuleKind,
    payload: NodeV,
    args: Seq<ArgV>,
    cb: CircuitBuilderV,
) -> Option<CircuitBuilderV> {
    match kind {
        CircuitRuleKind::ManagementType => match spec_management_payload(payload) {
            Some(mt) => Some(CircuitBuilderV { circuit_management_type: Some(mt), ..cb }),
            None => None,
        },
        CircuitRuleKind::Metadata => match spec_set_metadata_payload(payload) {
            Some(entries) => match spec_metadata_string(entries, args) {
                Ok(text) => Some(
                    CircuitBuilderV {
                        application_metadata: Some(vstd::utf8::encode_utf8(text)),
                        ..cb
                    },
                ),
                Err(_) => None,
            },
            None => None,
        },
    }
}

/// What a service-level rule makes of the service-builder collection: the
/// replacement collection, or nothing when the payload or an argument is
/// rejected.
pub open spec fn spec_apply_service_rule(
    kind: ServiceRuleKind,
    payload: NodeV,
    args: Seq<ArgV>,
) -> Option<Seq<ServiceBuilderV>> {
    match kind {
        ServiceRuleKind::CreateServices => match spec_create_services_payload(payload) {
            Some(cs) => if spec_cs_ok(cs, args) {
                Some(spec_cs_result(cs, args))
            } else {
                None
            },
            None => None,
        },
    }
}

/// How one ordered dispatch ends: the final builders, the first rule name
/// found in neither registry, or a registered rule's rejection of its
/// payload or arguments.
pub enum DispatchOutcome {
    Done(CircuitBuilderV, Seq<ServiceBuilderV>),
    NotFound(Seq<char>),
    RuleFailed,
}

/// Ordered dispatch: each named rule in turn, the circuit registry checked
/// first and the service registry independently; a name found in neither
/// registry ends the whole evaluation as [`DispatchOutcome::NotFound`].
pub open spec fn spec_apply_rules(
    entries: Seq<(Seq<char>, NodeV)>,
    creg: Seq<(Seq<char>, CircuitRuleKind)>,
    sreg: Seq<(Seq<char>, ServiceRuleKind)>,
    args: Seq<ArgV>,
    cb: CircuitBuilderV,
    sbs: Seq<ServiceBuilderV>,
) -> DispatchOutcome
    decreases entries.len(),
{
    if entries.len() == 0 {
        DispatchOutcome::Done(cb, sbs)
    } else {
        let name = entries[0].0;
        let payload = entries[0].1;
        let c = spec_reg_get(creg, name);
        let s = spec_reg_get(sreg, name);
        if c is None && s is None {
            DispatchOutcome::NotFound(name)
        } else {
            let cb2 = if c is Some {
                spec_apply_circuit_rule(c->Some_0, payload, args, cb)
            } else {
                Some(cb)
            };
            match cb2 {
                None => DispatchOutcome::RuleFailed,
                Some(cb2) => {
                    let sbs2 = if s is Some {
                        spec_apply_service_rule(s->Some_0, payload, args)
                    } else {
                        Some(sbs)
                    };
                    match sbs2 {
                        None => DispatchOutcome::RuleFailed,
                        Some(sbs2) => spec_apply_rules(
                            entries.drop_first(),
                            creg,
                            sreg,
                            args,
                            cb2,
                            sbs2,
                        ),
                    }
                },
            }
        }
    }
}

/// The rules of one template evaluation: the document's rule entries in
/// document order, and the two registries with the built-in rules
/// pre-registered. Each evaluation owns its own registries.
#[derive(Debug)]
pub struct Rules {
    entries: Vec<(String, YamlNode)>,
    circuit_rules: CreateCircuitRules,
    service_rules: ServiceDefinitionRules,
}

/// The mathematical image of a [`Rules`] value.
pub struct RulesV {
    pub entries: Seq<(Seq<char>, NodeV)>,
    pub creg: Seq<(Seq<char>, CircuitRuleKind)>,
    pub sreg: Seq<(Seq<char>, ServiceRuleKind)>,
}

impl View for Rules {
    type V = RulesV;

    closed spec fn view(&self) -> RulesV {
        RulesV {
            entries: crate::yaml::entries_view(self.entries@),
            creg: self.circuit_rules@,
            sreg: self.service_rules@,
        }
    }
}

/// The registry contents that every evaluation starts from.
pub open spec fn spec_default_creg() -> Seq<(Seq<char>, CircuitRuleKind)> {
    seq![
        ("set-management-type"@, CircuitRuleKind::ManagementType),
        ("set-metadata"@, CircuitRuleKind::Metadata),
    ]
}

/// The registry contents that every evaluation starts from.
pub open spec fn spec_default_sreg() -> Seq<(Seq<char>, ServiceRuleKind)> {
    seq![("create-services"@, ServiceRuleKind::CreateServices)]
}

impl Rules {
    /// The rules of one evaluation: the given document entries, with the
    /// built-in rules registered.
    pub fn new(entries: Vec<(String, YamlNode)>) -> (r: Rules)
        ensures
            r@.entries == crate::yaml::entries_view(entries@),
            r@.creg == spec_default_creg(),
            r@.sreg == spec_default_sreg(),
    {
        let ghost ev = crate::yaml::entries_view(entries@);
        let mut circuit_rules = CreateCircuitRules::new();
        circuit_rules.register_rule("set-management-type", CircuitRuleKind::ManagementType);
        circuit_rules.register_rule("set-metadata", CircuitRuleKind::Metadata);
        let mut service_rules = ServiceDefinitionRules::new();
        service_rules.register_rule("create-services", ServiceRuleKind::CreateServices);
        proof {
            reveal_strlit("set-management-type");
            reveal_strlit("set-metadata");
            reveal_strlit("create-services");
            assert("set-management-type"@.len() == 19);
            assert("set-metadata"@.len() == 12);
            assert("set-management-type"@ != "set-metadata"@);
            let e0 = Seq::<(Seq<char>, CircuitRuleKind)>::empty();
            let r1 = seq![("set-management-type"@, CircuitRuleKind::ManagementType)];
            assert(spec_register(e0, "set-management-type"@, CircuitRuleKind::ManagementType)
                =~= r1);
            assert(r1.drop_first() =~= e0);
            assert(spec_register(r1, "set-metadata"@, CircuitRuleKind::Metadata) =~= r1
                + spec_register(e0, "set-metadata"@, CircuitRuleKind::Metadata));
            assert(circuit_rules@ =~= spec_default_creg());
            let s0 = Seq::<(Seq<char>, ServiceRuleKind)>::empty();
            assert(spec_register(s0, "create-services"@, ServiceRuleKind::CreateServices)
                =~= spec_default_sreg());
            assert(service_rules@ =~= spec_default_sreg());
        }
        Rules { entries, circuit_rules, service_rules }
    }

    /// Applies the document's rules in order to the accumulated builders.
    /// Succeeds exactly when the ordered dispatch does; the builders change
    /// only on success, and then to exactly the dispatch's outcome. A rule
    /// name found in neither registry is reported as rule-not-found, under
    /// that name — and no other failure is.
    pub fn apply_rules(
        &self,
        builders: &mut crate::template::Builders,
        template_arguments: &Vec<RuleArgument>,
    ) -> (r: Result<(), CircuitTemplateError>)
        ensures
            r is Ok <==> spec_apply_rules(
                self@.entries,
                self@.creg,
                self@.sreg,
                template_arguments.deep_view(),
                old(builders)@.circuit,
                old(builders)@.services,
            ) is Done,
            r is Ok ==> spec_apply_rules(
                self@.entries,
                self@.creg,
                self@.sreg,
                template_arguments.deep_view(),
                old(builders)@.circuit,
                old(builders)@.services,
            ) == DispatchOutcome::Done(final(builders)@.circuit, final(builders)@.services),
            r is Err ==> final(builders)@ == old(builders)@,
            r matches Err(e) ==> (e is RuleNotFound <==> spec_apply_rules(
                self@.entries,
                self@.creg,
                self@.sreg,
                template_arguments.deep_view(),
                old(builders)@.circuit,
                old(builders)@.services,
            ) is NotFound),
            spec_apply_rules(
                self@.entries,
                self@.creg,
                self@.sreg,
                template_arguments.deep_view(),
                old(builders)@.circuit,
                old(builders)@.services,
            ) matches DispatchOutcome::NotFound(missing) ==> (r matches Err(
                CircuitTemplateError::RuleNotFound(reported),
            ) && reported@ == missing),
    {
        let ghost args = template_arguments.deep_view();
        let ghost entries = self@.entries;
        let ghost creg = self@.creg;
        let ghost sreg = self@.sreg;
        let ghost cb0 = builders@.circuit;
        let ghost sbs0 = builders@.services;
        proof {
            crate::yaml::lemma_entries_view(self.entries@);
        }
        let mut circuit_builder = builders.create_circuit_builder();
        let mut service_builders = builders.service_builders();
        proof {
            assert(entries.skip(0) =~= entries);
        }
        let mut i: usize = 0;
        while i < self.entries.len()
            invariant
                i <= self.entries.len(),
                args == template_arguments.deep_view(),
                entries == self@.entries,
                creg == self@.creg,
                sreg == self@.sreg,
                entries == crate::yaml::entries_view(self.entries@),
                entries.len() == self.entries@.len(),
                cb0 == old(builders)@.circuit,
                sbs0 == old(builders)@.services,
                builders@.circuit == cb0,
                builders@.services == sbs0,
                spec_apply_rules(entries, creg, sreg, args, cb0, sbs0) == spec_apply_rules(
                    entries.skip(i as int),
                    creg,
                    sreg,
                    args,
                    circuit_builder@,
                    service_builders.deep_view(),
                ),
            decreases self.entries.len() - i,
        {
            proof {
                crate::yaml::lemma_entries_view(self.entries@);
                assert(entries.skip(i as int)[0] == entries[i as int]);
                assert(entries.skip(i as int).drop_first() =~= entries.skip(i as int + 1));
            }
            let name = &self.entries[i].0;
            let payload = &self.entries[i].1;
            let circuit_kind = self.circuit_rules.lookup(name.as_str());
            let service_kind = self.service_rules.lookup(name.as_str());
            if circuit_kind.is_none() && service_kind.is_none() {
                return Err(CircuitTemplateError::RuleNotFound(name.clone()));
            }
            if let Some(kind) = circuit_kind {
                match kind {
                    CircuitRuleKind::ManagementType => {
                        let cm = match CircuitManagement::from_payload(payload) {
                            Ok(cm) => cm,
                            Err(e) => {
                                return Err(e);
                            },
                        };
                        circuit_builder =
                        match cm.apply_rule(circuit_builder) {
                            Ok(b) => b,
                            Err(e) => {
                                proof {
                                    assert(false);
                                }
                                return Err(e);
                            },
                        };
                    },
                    CircuitRuleKind::Metadata => {
                        let sm = match SetMetadata::from_payload(payload) {
                            Ok(sm) => sm,
                            Err(e) => {
                                return Err(e);
                            },
                        };
                        circuit_builder =
                        match sm.apply_rule(circuit_builder, template_arguments) {
                            Ok(b) => b,
                            Err(e) => {
                                return Err(e);
                            },
                        };
                    },
                }
            }
            if let Some(kind) = service_kind {
                match kind {
                    ServiceRuleKind::CreateServices => {
                        let cs = match CreateServices::from_payload(payload) {
                            Ok(cs) => cs,
                            Err(e) => {
                                return Err(e);
                            },
                        };
                        service_builders =
                        match cs.apply_rule(template_arguments) {
                            Ok(sbs) => sbs,
                            Err(e) => {
                                return Err(e);
                            },
                        };
                    },
                }
            }
            i += 1;
        }
        proof {
            assert(entries.skip(entries.len() as int) =~= Seq::<(Seq<char>, NodeV)>::empty());
        }
        builders.set_create_circuit_builder(circuit_builder);
        builders.set_service_builders(service_builders);
        Ok(())
    }
}

} // verus!
