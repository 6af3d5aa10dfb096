//! The evaluation driver: from template text and caller-supplied arguments
//! to the finished builders.
//!
//! Evaluation is a single synchronous pass: load the document behind the
//! version guard, turn its declarations into the argument surface (the
//! registered rules contribute their own declared arguments), record the
//! caller's values, then apply the rules in document order. The outcome is
//! a function of the template text and the supplied arguments alone: the
//! same inputs always yield the same builders.

use vstd::prelude::*;
use vstd::string::*;

use crate::args::{spec_base_name, ArgV, RuleArgument};
use crate::document::{load_template, spec_document, spec_version, DeclV, Template};
use crate::errors::CircuitTemplateError;
use crate::messages::{
    clone_service_builders, CircuitBuilderV, CreateCircuitBuilder, ServiceBuilderV,
    SplinterServiceBuilder,
};
use crate::rules::{spec_apply_rules, spec_default_creg, spec_default_sreg, DispatchOutcome, Rules};
use crate::text::{spec_lower, to_lowercase};
use crate::yaml::yaml_tree_of;

verus! {

/// The two accumulators of one evaluation: the circuit-level builder and
/// the per-service builders.
#[derive(Debug)]
pub struct Builders {
    create_circuit_builder: CreateCircuitBuilder,
    service_builders: Vec<SplinterServiceBuilder>,
}

/// The mathematical image of a [`Builders`] value.
pub struct BuildersV {
    pub circuit: CircuitBuilderV,
    pub services: Seq<ServiceBuilderV>,
}

impl View for Builders {
    type V = BuildersV;

    closed spec fn view(&self) -> BuildersV {
        BuildersV {
            circuit: self.create_circuit_builder@,
            services: self.service_builders.deep_view(),
        }
    }
}

impl Builders {
    /// Fresh accumulators: an empty circuit builder and no services.
    pub fn new() -> (r: Builders)
        ensures
            r@.circuit == crate::messages::spec_empty_circuit_builder(),
            r@.services.len() == 0,
    {
        let r = Builders {
            create_circuit_builder: CreateCircuitBuilder::new(),
            service_builders: Vec::new(),
        };
        proof {
            assert(r@.services =~= Seq::<ServiceBuilderV>::empty());
        }
        r
    }

    /// Replaces the circuit-level builder.
    pub fn set_create_circuit_builder(&mut self, builder: CreateCircuitBuilder)
        ensures
            final(self)@.circuit == builder@,
            final(self)@.services == old(self)@.services,
    {
        self.create_circuit_builder = builder;
    }

    /// Replaces the service builders.
    pub fn set_service_builders(&mut self, builders: Vec<SplinterServiceBuilder>)
        ensures
            final(self)@.circuit == old(self)@.circuit,
            final(self)@.services == builders.deep_view(),
    {
        self.service_builders = builders;
    }

    /// The accumulated circuit-level builder.
    pub fn create_circuit_builder(&self) -> (r: CreateCircuitBuilder)
        ensures
            r@ == self@.circuit,
    {
        self.create_circuit_builder.clone()
    }

    /// The accumulated service builders.
    pub fn service_builders(&self) -> (r: Vec<SplinterServiceBuilder>)
        ensures
            r.deep_view() == self@.services,
    {
        clone_service_builders(&self.service_builders)
    }
}

/// The declared argument surface of a document: each declaration with its
/// name lower-cased and no user value yet, followed by the arguments the
/// registered rules contribute (the required `nodes` of `create-services`)
/// and the reserved signer-key entry, so that a caller can supply the
/// signer key that defaults may reference.
pub open spec fn spec_template_args(decls: Seq<DeclV>) -> Seq<ArgV> {
    decls.map_values(
        |d: DeclV|
            ArgV {
                name: spec_lower(d.name),
                required: d.required,
                default_value: d.default_value,
                user_value: None,
            },
    ) + seq![
        ArgV { name: "nodes"@, required: true, default_value: None, user_value: None },
        ArgV { name: "signer_pub_key"@, required: false, default_value: None, user_value: None },
    ]
}

/// Recording one caller value: the first argument whose base name matches
/// the lower-cased key receives the value; a key that matches nothing is
/// ignored.
pub open spec fn spec_set_user(args: Seq<ArgV>, key: Seq<char>, value: Seq<char>) -> Seq<ArgV>
    decreases args.len(),
{
    if args.len() == 0 {
        args
    } else if spec_base_name(args[0].name) == spec_base_name(spec_lower(key)) {
        seq![ArgV { user_value: Some(value), ..args[0] }] + args.drop_first()
    } else {
        seq![args[0]] + spec_set_user(args.drop_first(), key, value)
    }
}

/// Recording the caller's values, in the order given.
pub open spec fn spec_set_users(args: Seq<ArgV>, user: Seq<(Seq<char>, Seq<char>)>) -> Seq<ArgV>
    decreases user.len(),
{
    if user.len() == 0 {
        args
    } else {
        spec_set_users(spec_set_user(args, user[0].0, user[0].1), user.drop_first())
    }
}

/// The whole evaluation, as a function of the template text and the
/// caller's arguments: the loaded document's rules, applied in order over
/// the resolved argument surface, starting from empty builders. Nothing
/// else enters, so evaluation is deterministic.
pub open spec fn spec_try_from_template(
    data: Seq<u8>,
    user: Seq<(Seq<char>, Seq<char>)>,
) -> Option<BuildersV> {
    match yaml_tree_of(data) {
        Some(t) => if spec_version(t) == Some("v0.1"@) && spec_document(t) is Some {
            let doc = spec_document(t)->Some_0;
            let args = spec_set_users(spec_template_args(doc.args), user);
            match spec_apply_rules(
                doc.rules,
                spec_default_creg(),
                spec_default_sreg(),
                args,
                crate::messages::spec_empty_circuit_builder(),
                Seq::<ServiceBuilderV>::empty(),
            ) {
                DispatchOutcome::Done(cb, sbs) => Some(BuildersV { circuit: cb, services: sbs }),
                _ => None,
            }
        } else {
            None
        },
        None => None,
    }
}

/// Whether an evaluation fails because a rule name of the document is
/// registered in neither registry: the document loads, and the ordered
/// dispatch stops at such a name.
pub open spec fn spec_rule_not_found(data: Seq<u8>, user: Seq<(Seq<char>, Seq<char>)>) -> bool {
    match yaml_tree_of(data) {
        Some(t) => spec_version(t) == Some("v0.1"@) && spec_document(t) is Some
            && spec_apply_rules(
            spec_document(t)->Some_0.rules,
            spec_default_creg(),
            spec_default_sreg(),
            spec_set_users(spec_template_args(spec_document(t)->Some_0.args), user),
            crate::messages::spec_empty_circuit_builder(),
            Seq::<ServiceBuilderV>::empty(),
        ) is NotFound,
        None => false,
    }
}

/// Law: evaluation is deterministic — two evaluations of the same template
/// text with the same arguments yield the same builders, field for field.
pub proof fn lemma_evaluation_deterministic(
    data: Seq<u8>,
    user: Seq<(Seq<char>, Seq<char>)>,
    b1: BuildersV,
    b2: BuildersV,
)
    requires
        spec_try_from_template(data, user) == Some(b1),
        spec_try_from_template(data, user) == Some(b2),
    ensures
        b1 == b2,
{
}

/// A parsed template bound to one evaluation: its version, its argument
/// surface, and its rules with the built-ins registered.
#[derive(Debug)]
pub struct CircuitCreateTemplate {
    version: String,
    args: Vec<RuleArgument>,
    rules: Rules,
}

/// The mathematical image of a [`CircuitCreateTemplate`].
pub struct TemplateV {
    pub version: Seq<char>,
    pub args: Seq<ArgV>,
    pub rules: crate::rules::RulesV,
}

impl View for CircuitCreateTemplate {
    type V = TemplateV;

    closed spec fn view(&self) -> TemplateV {
        TemplateV { version: self.version@, args: self.args.deep_view(), rules: self.rules@ }
    }
}

impl CircuitCreateTemplate {
    /// Binds a loaded document to an evaluation: declarations become the
    /// argument surface (names lower-cased, rule-contributed arguments
    /// appended) and the rules keep their document order.
    pub fn from_template(template: Template) -> (r: CircuitCreateTemplate)
        ensures
            (template matches Template::V0_1(doc) ==> {
                &&& r@.version == doc@.version
                &&& r@.args == spec_template_args(doc@.args)
                &&& r@.rules.entries == doc@.rules
                &&& r@.rules.creg == spec_default_creg()
                &&& r@.rules.sreg == spec_default_sreg()
            }),
    {
        let doc = match template {
            Template::V0_1(doc) => doc,
        };
        let ghost decls = doc@.args;
        let version = doc.version();
        let decl_list = doc.args();
        let mut args: Vec<RuleArgument> = Vec::new();
        let mut i: usize = 0;
        while i < decl_list.len()
            invariant
                i <= decl_list.len(),
                decls == decl_list.deep_view(),
                decls.len() == decl_list.len(),
                args.deep_view().len() == i,
                forall|j: int|
                    0 <= j < i ==> #[trigger] args.deep_view()[j] == (ArgV {
                        name: spec_lower(decls[j].name),
                        required: decls[j].required,
                        default_value: decls[j].default_value,
                        user_value: None,
                    }),
            decreases decl_list.len() - i,
        {
            proof {
                assert(decls[i as int] == decl_list@[i as int]@);
            }
            let d = &decl_list[i];
            let lowered = to_lowercase(d.name().as_str());
            let decl = RuleArgument::new_declared(lowered, d.required(), d.default_value());
            let ghost prevv = args@;
            let ghost prevd = args.deep_view();
            args.push(decl);
            proof {
                assert forall|j: int| 0 <= j < i + 1 implies #[trigger] args.deep_view()[j]
                    == (ArgV {
                    name: spec_lower(decls[j].name),
                    required: decls[j].required,
                    default_value: decls[j].default_value,
                    user_value: None,
                }) by {
                    assert(args.deep_view()[j] == args@[j]@);
                    if j < i {
                        assert(args@[j] == prevv[j]);
                        assert(prevd[j] == prevv[j]@);
                    }
                }
            }
            i += 1;
        }
        let contributed = crate::create_services::CreateServicesRule::default().get_arguments();
        let mut k: usize = 0;
        let ghost base = args.deep_view();
        while k < contributed.len()
            invariant
                k <= contributed.len(),
                contributed.deep_view() == seq![
                    ArgV { name: "nodes"@, required: true, default_value: None, user_value: None },
                ],
                contributed.deep_view().len() == contributed.len(),
                args.deep_view().len() == base.len() + k,
                forall|j: int|
                    0 <= j < base.len() + k ==> #[trigger] args.deep_view()[j] == (if j
                        < base.len() {
                        base[j]
                    } else {
                        contributed.deep_view()[j - base.len()]
                    }),
            decreases contributed.len() - k,
        {
            proof {
                assert(contributed.deep_view()[k as int] == contributed@[k as int]@);
            }
            let ghost prevv = args@;
            let ghost prevd = args.deep_view();
            args.push(contributed[k].clone());
            proof {
                assert forall|j: int| 0 <= j < base.len() + k + 1 implies (
                #[trigger] args.deep_view()[j]) == (if j < base.len() {
                    base[j]
                } else {
                    contributed.deep_view()[j - base.len()]
                }) by {
                    assert(args.deep_view()[j] == args@[j]@);
                    assert(prevv.len() == base.len() + k);
                    if j < base.len() + k {
                        assert(args@[j] == prevv[j]);
                        assert(prevd[j] == prevv[j]@);
                    } else {
                        assert(args@[j] == args@[prevv.len() as int]);
                    }
                }
            }
            k += 1;
        }
        let signer_entry = RuleArgument::new_declared(
            String::from_str("signer_pub_key"),
            false,
            None,
        );
        let ghost prevv = args@;
        let ghost prevd = args.deep_view();
        args.push(signer_entry);
        proof {
            assert forall|j: int| 0 <= j < prevd.len() + 1 implies (#[trigger] args.deep_view()[j])
                == (if j < prevd.len() {
                prevd[j]
            } else {
                ArgV {
                    name: "signer_pub_key"@,
                    required: false,
                    default_value: None,
                    user_value: None,
                }
            }) by {
                assert(args.deep_view()[j] == args@[j]@);
                if j < prevd.len() {
                    assert(args@[j] == prevv[j]);
                    assert(prevd[j] == prevv[j]@);
                }
            }
            let stv = spec_template_args(decls);
            assert(stv.len() == decls.len() + 2);
            assert forall|j: int| 0 <= j < stv.len() implies args.deep_view()[j] == stv[j] by {
                if j < decls.len() {
                    assert(args.deep_view()[j] == prevd[j]);
                    assert(prevd[j] == base[j]);
                    assert(stv[j] == decls.map_values(
                        |d: DeclV|
                            ArgV {
                                name: spec_lower(d.name),
                                required: d.required,
                                default_value: d.default_value,
                                user_value: None,
                            },
                    )[j]);
                } else if j == decls.len() {
                    assert(args.deep_view()[j] == prevd[j]);
                    assert(prevd[j] == contributed.deep_view()[0]);
                } else {
                    assert(args.deep_view()[j] == (ArgV {
                        name: "signer_pub_key"@,
                        required: false,
                        default_value: None,
                        user_value: None,
                    }));
                }
            }
            assert(args.deep_view() =~= spec_template_args(decls));
        }
        let rules = Rules::new(doc.into_rule_entries());
        CircuitCreateTemplate { version, args, rules }
    }

    /// Records one caller value: the first argument whose base name matches
    /// the lower-cased key receives it; an unmatched key is ignored.
    pub fn set_argument_value(&mut self, key: &str, value: &str)
        ensures
            final(self)@.version == old(self)@.version,
            final(self)@.rules == old(self)@.rules,
            final(self)@.args == spec_set_user(old(self)@.args, key@, value@),
    {
        let ghost pre = self@.args;
        let lowered_key = to_lowercase(key);
        let target = crate::args::base_name(lowered_key.as_str());
        proof {
            assert(pre.skip(0) =~= pre);
            assert(pre.take(0) =~= Seq::<ArgV>::empty());
            assert(pre.take(0) + spec_set_user(pre.skip(0), key@, value@) =~= spec_set_user(
                pre,
                key@,
                value@,
            ));
        }
        let mut i: usize = 0;
        while i < self.args.len()
            invariant
                i <= self.args.len(),
                self@.version == old(self)@.version,
                self@.rules == old(self)@.rules,
                pre == old(self)@.args,
                pre == self@.args,
                pre == self.args.deep_view(),
                pre.len() == self.args@.len(),
                target@ == spec_base_name(spec_lower(key@)),
                forall|j: int|
                    0 <= j < i ==> spec_base_name((#[trigger] pre[j]).name) != spec_base_name(
                        spec_lower(key@),
                    ),
                spec_set_user(pre, key@, value@) == pre.take(i as int) + spec_set_user(
                    pre.skip(i as int),
                    key@,
                    value@,
                ),
            decreases self.args.len() - i,
        {
            proof {
                assert(pre[i as int] == self.args@[i as int]@);
                assert(pre.skip(i as int)[0] == pre[i as int]);
                assert(pre.skip(i as int).drop_first() =~= pre.skip(i as int + 1));
            }
            let b = crate::args::base_name(self.args[i].name());
            if crate::text::str_eq(b.as_str(), target.as_str()) {
                let mut updated = self.args[i].clone();
                updated.set_user_value(value);
                let ghost uv = updated@;
                self.args.set(i, updated);
                proof {
                    assert(uv == (ArgV { user_value: Some(value@), ..pre[i as int] }));
                    assert(spec_set_user(pre.skip(i as int), key@, value@) == seq![uv] + pre.skip(
                        i as int + 1,
                    ));
                    assert(self.args.deep_view() =~= pre.take(i as int) + (seq![uv] + pre.skip(
                        i as int + 1,
                    )));
                }
                return ;
            }
            proof {
                assert(spec_set_user(pre.skip(i as int), key@, value@) == seq![pre[i as int]]
                    + spec_set_user(pre.skip(i as int + 1), key@, value@));
                assert(pre.take(i as int) + (seq![pre[i as int]] + spec_set_user(
                    pre.skip(i as int + 1),
                    key@,
                    value@,
                )) =~= pre.take(i as int + 1) + spec_set_user(pre.skip(i as int + 1), key@, value@));
            }
            i += 1;
        }
        proof {
            assert(pre.skip(pre.len() as int) =~= Seq::<ArgV>::empty());
            assert(pre.take(pre.len() as int) =~= pre);
            assert(pre + spec_set_user(pre.skip(pre.len() as int), key@, value@) =~= pre);
        }
    }

    /// Applies the template's rules, in document order, to the builders. A
    /// rule name found in neither registry is reported as rule-not-found —
    /// and no other failure is.
    pub fn apply_rules(&self, builders: &mut Builders) -> (r: Result<(), CircuitTemplateError>)
        ensures
            r is Ok <==> spec_apply_rules(
                self@.rules.entries,
                self@.rules.creg,
                self@.rules.sreg,
                self@.args,
                old(builders)@.circuit,
                old(builders)@.services,
            ) is Done,
            r is Ok ==> spec_apply_rules(
                self@.rules.entries,
                self@.rules.creg,
                self@.rules.sreg,
                self@.args,
                old(builders)@.circuit,
                old(builders)@.services,
            ) == DispatchOutcome::Done(final(builders)@.circuit, final(builders)@.services),
            r is Err ==> final(builders)@ == old(builders)@,
            r matches Err(e) ==> (e is RuleNotFound <==> spec_apply_rules(
                self@.rules.entries,
                self@.rules.creg,
                self@.rules.sreg,
                self@.args,
                old(builders)@.circuit,
                old(builders)@.services,
            ) is NotFound),
    {
        self.rules.apply_rules(builders, &self.args)
    }
}

impl Builders {
    /// Evaluates a template: loads the document behind the version guard,
    /// records the caller's arguments, and applies the rules in document
    /// order. Succeeds exactly when [`spec_try_from_template`] yields a
    /// value, and then returns exactly that value — the same text and
    /// arguments always build the same result.
    pub fn try_from_template(data: &[u8], arguments: &Vec<(String, String)>) -> (r: Result<
        Builders,
        CircuitTemplateError,
    >)
        ensures
            r is Ok <==> spec_try_from_template(data@, arguments.deep_view()) is Some,
            r matches Ok(b) ==> Some(b@) == spec_try_from_template(data@, arguments.deep_view()),
            r matches Err(e) ==> (e is RuleNotFound <==> spec_rule_not_found(
                data@,
                arguments.deep_view(),
            )),
    {
        let ghost user = arguments.deep_view();
        let template = match load_template(data) {
            Ok(t) => t,
            Err(e) => {
                proof {
                    assert(!spec_rule_not_found(data@, user));
                }
                return Err(e);
            },
        };
        let mut native = CircuitCreateTemplate::from_template(template);
        let ghost base_args = native@.args;
        let ghost rv = native@.rules;
        let mut i: usize = 0;
        proof {
            assert(user.skip(0) =~= user);
        }
        while i < arguments.len()
            invariant
                i <= arguments.len(),
                user == arguments.deep_view(),
                user.len() == arguments.len(),
                native@.rules == rv,
                spec_set_users(base_args, user) == spec_set_users(
                    native@.args,
                    user.skip(i as int),
                ),
            decreases arguments.len() - i,
        {
            proof {
                assert(user.skip(i as int)[0] == user[i as int]);
                assert(user.skip(i as int).drop_first() =~= user.skip(i as int + 1));
                assert(user[i as int] == (arguments@[i as int].0@, arguments@[i as int].1@));
            }
            let (k, v) = (&arguments[i].0, &arguments[i].1);
            native.set_argument_value(k.as_str(), v.as_str());
            i += 1;
        }
        proof {
            assert(user.skip(user.len() as int) =~= Seq::<(Seq<char>, Seq<char>)>::empty());
        }
        proof {
            let t = yaml_tree_of(data@)->Some_0;
            let doc = spec_document(t)->Some_0;
            assert(spec_set_users(native@.args, user.skip(user.len() as int)) == native@.args);
            assert(native@.args == spec_set_users(spec_template_args(doc.args), user));
        }
        let mut builders = Builders::new();
        proof {
            assert(builders@.services =~= Seq::<ServiceBuilderV>::empty());
        }
        match native.apply_rules(&mut builders) {
            Ok(()) => {
                proof {
                    let t = yaml_tree_of(data@)->Some_0;
                    let doc = spec_document(t)->Some_0;
                    assert(spec_apply_rules(
                        doc.rules,
                        spec_default_creg(),
                        spec_default_sreg(),
                        spec_set_users(spec_template_args(doc.args), user),
                        crate::messages::spec_empty_circuit_builder(),
                        Seq::<ServiceBuilderV>::empty(),
                    ) == DispatchOutcome::Done(builders@.circuit, builders@.services));
                }
                Ok(builders)
            },
            Err(e) => {
                proof {
                    let t = yaml_tree_of(data@)->Some_0;
                    let doc = spec_document(t)->Some_0;
                    assert(!(spec_apply_rules(
                        doc.rules,
                        spec_default_creg(),
                        spec_default_sreg(),
                        spec_set_users(spec_template_args(doc.args), user),
                        crate::messages::spec_empty_circuit_builder(),
                        Seq::<ServiceBuilderV>::empty(),
                    ) is Done));
                    assert(spec_rule_not_found(data@, user) <==> spec_apply_rules(
                        doc.rules,
                        spec_default_creg(),
                        spec_default_sreg(),
                        spec_set_users(spec_template_args(doc.args), user),
                        crate::messages::spec_empty_circuit_builder(),
                        Seq::<ServiceBuilderV>::empty(),
                    ) is NotFound);
                }
                Err(e)
            },
        }
    }
}

} // verus!
