//! Template arguments and the resolver for `$(name)` references.
//!
//! A template declares arguments (name, required flag, optional default);
//! the caller supplies user values for some of them. A rule's text may then
//! refer to an argument as `$(name)`. Resolution gives the user value when
//! one exists, fails when the argument is required and has none, and
//! otherwise uses the declared default as it stands. One default is
//! special: the reserved signer-public-key token is followed one step to
//! the caller-supplied signer key, and resolution fails when the caller
//! supplied none.
//!
//! A name may carry a namespace prefix before a colon (`cs:nodes`);
//! references and declarations are matched by the lower-cased name after
//! that prefix, so `$(a:nodes)` and `$(b:nodes)` name the same argument.

use vstd::prelude::*;
use vstd::string::*;

use crate::errors::CircuitTemplateError;
use crate::text::{spec_lower, str_eq, to_lowercase};

verus! {

/// Whether `s` has the shape of a reference: `$(` ... `)`.
pub open spec fn is_marked(s: Seq<char>) -> bool {
    s.len() >= 3 && s[0] == '$' && s[1] == '(' && s.last() == ')'
}

/// The name inside a `$(...)` reference, lower-cased.
pub open spec fn spec_stripped(s: Seq<char>) -> Seq<char>
    recommends
        is_marked(s),
{
    spec_lower(s.subrange(2, s.len() - 1))
}

/// The part of a name after its namespace prefix: everything past the first
/// colon, or the whole name when it has none.
pub open spec fn spec_base_name(s: Seq<char>) -> Seq<char>
    decreases s.len(),
{
    if !s.contains(':') {
        s
    } else if s[0] == ':' {
        s.drop_first()
    } else {
        spec_base_name(s.drop_first())
    }
}

/// Whether `key` has the shape of a `$(...)` reference.
pub fn is_arg(key: &str) -> (r: bool)
    ensures
        r == is_marked(key@),
{
    let n = key.unicode_len();
    n >= 3 && key.get_char(0) == '$' && key.get_char(1) == '(' && key.get_char(n - 1) == ')'
}

/// The lower-cased name inside the `$(...)` reference `key`, or an error
/// when `key` is no reference.
pub fn strip_arg_marker(key: &str) -> (r: Result<String, CircuitTemplateError>)
    ensures
        r is Ok <==> is_marked(key@),
        r matches Ok(name) ==> name@ == spec_stripped(key@),
        r matches Err(e) ==> e is InvalidArgumentName,
{
    if is_arg(key) {
        let inner = key.substring_char(2, key.unicode_len() - 1);
        Ok(to_lowercase(inner))
    } else {
        Err(CircuitTemplateError::InvalidArgumentName(String::from_str(key)))
    }
}

proof fn lemma_base_name_at(s: Seq<char>, i: int)
    requires
        0 <= i < s.len(),
        s[i] == ':',
        forall|j: int| 0 <= j < i ==> s[j] != ':',
    ensures
        spec_base_name(s) == s.subrange(i + 1, s.len() as int),
    decreases i,
{
    assert(s.contains(':'));
    if i == 0 {
        assert(s.drop_first() =~= s.subrange(1, s.len() as int));
    } else {
        let t = s.drop_first();
        assert(t[i - 1] == ':');
        assert(forall|j: int| 0 <= j < i - 1 ==> #[trigger] t[j] == s[j + 1] && t[j] != ':');
        lemma_base_name_at(t, i - 1);
        assert(t.subrange(i, t.len() as int) =~= s.subrange(i + 1, s.len() as int));
    }
}

/// The name after its namespace prefix, if any: `cs:nodes` gives `nodes`,
/// `nodes` stays `nodes`.
pub fn base_name(s: &str) -> (r: String)
    ensures
        r@ == spec_base_name(s@),
{
    let n = s.unicode_len();
    let mut i: usize = 0;
    while i < n
        invariant
            n == s@.len(),
            i <= n,
            forall|j: int| 0 <= j < i ==> s@[j] != ':',
        decreases n - i,
    {
        if s.get_char(i) == ':' {
            proof {
                lemma_base_name_at(s@, i as int);
            }
            return String::from_str(s.substring_char(i + 1, n));
        }
        i += 1;
    }
    proof {
        assert(!s@.contains(':')) by {
            if s@.contains(':') {
                let j = choose|j: int| 0 <= j < s@.len() && s@[j] == ':';
            }
        }
    }
    String::from_str(s)
}

/// One argument of a template: its name, whether a value for it is
/// required, the declared default, and the user-supplied value when the
/// caller gave one.
#[derive(Debug)]
pub struct RuleArgument {
    name: String,
    required: bool,
    default_value: Option<String>,
    user_value: Option<String>,
}

/// The mathematical image of a [`RuleArgument`].
pub struct ArgV {
    pub name: Seq<char>,
    pub required: bool,
    pub default_value: Option<Seq<char>>,
    pub user_value: Option<Seq<char>>,
}

impl View for RuleArgument {
    type V = ArgV;

    closed spec fn view(&self) -> ArgV {
        ArgV {
            name: self.name@,
            required: self.required,
            default_value: match self.default_value {
                Some(s) => Some(s@),
                None => None,
            },
            user_value: match self.user_value {
                Some(s) => Some(s@),
                None => None,
            },
        }
    }
}

impl DeepView for RuleArgument {
    type V = ArgV;

    open spec fn deep_view(&self) -> ArgV {
        self.view()
    }
}

impl Clone for RuleArgument {
    /// A clone carries the same declaration and user value.
    fn clone(&self) -> (r: Self)
        ensures
            r@ == self@,
    {
        RuleArgument {
            name: self.name.clone(),
            required: self.required,
            default_value: match &self.default_value {
                Some(s) => Some(s.clone()),
                None => None,
            },
            user_value: match &self.user_value {
                Some(s) => Some(s.clone()),
                None => None,
            },
        }
    }
}

impl RuleArgument {
    /// An argument that the caller must supply a value for.
    pub fn new_required_argument(name: &str) -> (r: RuleArgument)
        ensures
            (r@ == ArgV { name: name@, required: true, default_value: None, user_value: None }),
    {
        RuleArgument {
            name: String::from_str(name),
            required: true,
            default_value: None,
            user_value: None,
        }
    }

    /// An argument that falls back to `default_value` when the caller
    /// supplies nothing.
    pub fn new_optional_argument(name: &str, default_value: &str) -> (r: RuleArgument)
        ensures
            (r@ == ArgV {
                name: name@,
                required: false,
                default_value: Some(default_value@),
                user_value: None,
            }),
    {
        RuleArgument {
            name: String::from_str(name),
            required: false,
            default_value: Some(String::from_str(default_value)),
            user_value: None,
        }
    }

    /// An argument built from a document's declaration, with no user value
    /// yet.
    pub fn new_declared(name: String, required: bool, default_value: Option<String>) -> (r:
        RuleArgument)
        ensures
            (r@ == ArgV {
                name: name@,
                required,
                default_value: match default_value {
                    Some(s) => Some(s@),
                    None => None,
                },
                user_value: None,
            }),
    {
        RuleArgument { name, required, default_value, user_value: None }
    }

    /// The argument's name.
    pub fn name(&self) -> (r: &str)
        ensures
            r@ == self@.name,
    {
        self.name.as_str()
    }

    /// Whether the caller must supply a value.
    pub fn required(&self) -> (r: bool)
        ensures
            r == self@.required,
    {
        self.required
    }

    /// The declared default, when there is one.
    pub fn default_value(&self) -> (r: Option<&String>)
        ensures
            match r {
                Some(s) => self@.default_value == Some(s@),
                None => self@.default_value is None,
            },
    {
        self.default_value.as_ref()
    }

    /// The user-supplied value, when the caller gave one.
    pub fn user_value(&self) -> (r: Option<&String>)
        ensures
            match r {
                Some(s) => self@.user_value == Some(s@),
                None => self@.user_value is None,
            },
    {
        self.user_value.as_ref()
    }

    /// Records the caller's value for this argument.
    pub fn set_user_value(&mut self, value: &str)
        ensures
            (final(self)@ == ArgV { user_value: Some(value@), ..old(self)@ }),
    {
        self.user_value = Some(String::from_str(value));
    }
}

/// Whether `s` is the reserved signer-public-key token: a `$(...)`
/// reference whose name, namespace prefix aside, is `signer_pub_key`.
pub open spec fn is_signer_token(s: Seq<char>) -> bool {
    is_marked(s) && spec_base_name(spec_stripped(s)) == "signer_pub_key"@
}

/// Whether `v` is the reserved signer-public-key token.
pub fn is_signer_token_text(v: &str) -> (r: bool)
    ensures
        r == is_signer_token(v@),
{
    if !is_arg(v) {
        return false;
    }
    let name = match strip_arg_marker(v) {
        Ok(name) => name,
        Err(_) => {
            return false;
        },
    };
    let base = base_name(name.as_str());
    str_eq(base.as_str(), "signer_pub_key")
}

/// The first declared argument whose base name is `name`'s base name.
pub open spec fn spec_find_argument(name: Seq<char>, args: Seq<ArgV>) -> Option<ArgV>
    decreases args.len(),
{
    if args.len() == 0 {
        None
    } else if spec_base_name(args[0].name) == spec_base_name(name) {
        Some(args[0])
    } else {
        spec_find_argument(name, args.drop_first())
    }
}

proof fn lemma_find_argument_skip(name: Seq<char>, args: Seq<ArgV>, i: int)
    requires
        0 <= i <= args.len(),
        forall|j: int|
            0 <= j < i ==> spec_base_name(#[trigger] args[j].name) != spec_base_name(name),
    ensures
        spec_find_argument(name, args) == spec_find_argument(name, args.skip(i)),
    decreases i,
{
    if i > 0 {
        let t = args.drop_first();
        assert(forall|j: int|
            0 <= j < i - 1 ==> #[trigger] t[j] == args[j + 1] && spec_base_name(t[j].name)
                != spec_base_name(name));
        lemma_find_argument_skip(name, t, i - 1);
        assert(t.skip(i - 1) =~= args.skip(i));
    } else {
        assert(args.skip(0) =~= args);
    }
}

/// Finds the declared argument that `name` refers to, namespace prefixes
/// ignored.
pub fn find_argument<'a>(name: &str, args: &'a Vec<RuleArgument>) -> (r: Option<
    &'a RuleArgument,
>)
    ensures
        match r {
            Some(a) => spec_find_argument(name@, args.deep_view()) == Some(a@),
            None => spec_find_argument(name@, args.deep_view()) is None,
        },
{
    let target = base_name(name);
    let mut i: usize = 0;
    while i < args.len()
        invariant
            i <= args.len(),
            target@ == spec_base_name(name@),
            args.deep_view().len() == args.len(),
            forall|j: int|
                0 <= j < i ==> spec_base_name(#[trigger] args.deep_view()[j].name)
                    != spec_base_name(name@),
        decreases args.len() - i,
    {
        let b = base_name(args[i].name());
        if str_eq(b.as_str(), target.as_str()) {
            proof {
                lemma_find_argument_skip(name@, args.deep_view(), i as int);
                assert(args.deep_view().skip(i as int)[0] == args.deep_view()[i as int]);
                assert(args.deep_view()[i as int] == args@[i as int]@);
            }
            return Some(&args[i]);
        }
        proof {
            assert(args.deep_view()[i as int] == args@[i as int]@);
        }
        i += 1;
    }
    proof {
        lemma_find_argument_skip(name@, args.deep_view(), args.len() as int);
        assert(args.deep_view().skip(args.len() as int) =~= Seq::<ArgV>::empty());
    }
    None
}

/// The caller-supplied signer key: the user value of the argument whose
/// base name is `signer_pub_key`, when both exist.
pub open spec fn spec_signer_key(args: Seq<ArgV>) -> Option<Seq<char>> {
    match spec_find_argument("signer_pub_key"@, args) {
        Some(a) => a.user_value,
        None => None,
    }
}

/// What resolving a token against the declared arguments yields.
pub enum Resolution {
    /// The final string value.
    Value(Seq<char>),
    /// The token names a required argument that the caller gave no value.
    RequiredMissing(Seq<char>),
    /// The token names an optional argument with neither value nor default.
    NoDefault(Seq<char>),
    /// The argument's default is the reserved signer-public-key token, and
    /// the caller supplied no signer key.
    SignerMissing,
}

/// The resolver's contract, in full: a non-reference passes through; an
/// undeclared reference passes through; a user value always wins; a
/// required argument without one fails; otherwise the declared default is
/// used as it stands — except the reserved signer-public-key token, which
/// is followed one step to the caller-supplied signer key and fails when
/// the caller supplied none.
pub open spec fn spec_resolve(token: Seq<char>, args: Seq<ArgV>) -> Resolution {
    if !is_marked(token) {
        Resolution::Value(token)
    } else {
        let name = spec_stripped(token);
        match spec_find_argument(name, args) {
            None => Resolution::Value(token),
            Some(a) => match a.user_value {
                Some(v) => Resolution::Value(v),
                None => if a.required {
                    Resolution::RequiredMissing(name)
                } else {
                    match a.default_value {
                        None => Resolution::NoDefault(name),
                        Some(d) => if is_signer_token(d) {
                            match spec_signer_key(args) {
                                Some(v) => Resolution::Value(v),
                                None => Resolution::SignerMissing,
                            }
                        } else {
                            Resolution::Value(d)
                        },
                    }
                },
            },
        }
    }
}

/// Law: when the caller supplied a value for the argument a token names,
/// resolution returns that value — it wins over any declared default.
pub proof fn lemma_user_value_precedence(token: Seq<char>, args: Seq<ArgV>, v: Seq<char>)
    requires
        is_marked(token),
        spec_find_argument(spec_stripped(token), args) matches Some(a) && a.user_value == Some(v),
    ensures
        spec_resolve(token, args) == Resolution::Value(v),
{
}

/// Law: a declaration with `required` set and no user value fails
/// resolution.
pub proof fn lemma_required_enforced(token: Seq<char>, args: Seq<ArgV>)
    requires
        is_marked(token),
        spec_find_argument(spec_stripped(token), args) matches Some(a) && a.user_value is None
            && a.required,
    ensures
        spec_resolve(token, args) == Resolution::RequiredMissing(spec_stripped(token)),
{
}

/// Law: a declaration without `required`, no user value and a default that
/// is not the reserved signer token resolves to that default, as declared.
pub proof fn lemma_default_used(token: Seq<char>, args: Seq<ArgV>, d: Seq<char>)
    requires
        is_marked(token),
        spec_find_argument(spec_stripped(token), args) matches Some(a) && a.user_value is None
            && !a.required && a.default_value == Some(d),
        !is_signer_token(d),
    ensures
        spec_resolve(token, args) == Resolution::Value(d),
{
}

/// Law: a declaration whose default is the reserved signer token resolves
/// to the caller-supplied signer key, and fails when the caller supplied
/// none.
pub proof fn lemma_signer_indirection(token: Seq<char>, args: Seq<ArgV>, d: Seq<char>)
    requires
        is_marked(token),
        spec_find_argument(spec_stripped(token), args) matches Some(a) && a.user_value is None
            && !a.required && a.default_value == Some(d),
        is_signer_token(d),
    ensures
        spec_resolve(token, args) == (match spec_signer_key(args) {
            Some(v) => Resolution::Value(v),
            None => Resolution::SignerMissing,
        }),
{
}

/// Resolves `key` against the template's arguments.
///
/// Succeeds exactly when [`spec_resolve`] yields a value, and returns that
/// value; the failures are a required argument without a user value, an
/// optional one with neither value nor default, and a signer-token default
/// without a caller-supplied signer key.
pub fn get_argument_value(key: &str, template_arguments: &Vec<RuleArgument>) -> (r: Result<
    String,
    CircuitTemplateError,
>)
    ensures
        r matches Ok(v) ==> spec_resolve(key@, template_arguments.deep_view())
            == Resolution::Value(v@),
        r is Ok <==> spec_resolve(key@, template_arguments.deep_view()) is Value,
        r matches Err(e) ==> (e is MissingArgument <==> spec_resolve(
            key@,
            template_arguments.deep_view(),
        ) is RequiredMissing),
        r matches Err(e) ==> (e is NoDefaultValue <==> spec_resolve(
            key@,
            template_arguments.deep_view(),
        ) is NoDefault),
        r matches Err(e) ==> (e is MissingSignerKey <==> spec_resolve(
            key@,
            template_arguments.deep_view(),
        ) is SignerMissing),
{
    if !is_arg(key) {
        return Ok(String::from_str(key));
    }
    let name = match strip_arg_marker(key) {
        Ok(name) => name,
        Err(_) => {
            return Err(CircuitTemplateError::Internal(String::from_str(key)));
        },
    };
    match find_argument(name.as_str(), template_arguments) {
        None => Ok(String::from_str(key)),
        Some(arg) => {
            match arg.user_value() {
                Some(v) => Ok(v.clone()),
                None => {
                    if arg.required() {
                        return Err(CircuitTemplateError::MissingArgument(name));
                    }
                    match arg.default_value() {
                        None => Err(CircuitTemplateError::NoDefaultValue(name)),
                        Some(d) => {
                            let d = d.clone();
                            if is_signer_token_text(d.as_str()) {
                                match find_argument("signer_pub_key", template_arguments) {
                                    Some(signer) => match signer.user_value() {
                                        Some(v) => Ok(v.clone()),
                                        None => Err(CircuitTemplateError::MissingSignerKey),
                                    },
                                    None => Err(CircuitTemplateError::MissingSignerKey),
                                }
                            } else {
                                Ok(d)
                            }
                        },
                    }
                },
            }
        },
    }
}

} // verus!
