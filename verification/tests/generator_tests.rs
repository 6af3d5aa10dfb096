//! The service-id generator and the argument resolver, on their own.

use circuit_template::args::{
    base_name, get_argument_value, is_arg, strip_arg_marker, RuleArgument,
};
use circuit_template::base62::get_next_service_id;
use circuit_template::errors::CircuitTemplateError;
use circuit_template::text::is_match;

/// The rightmost position steps through digits, capitals, then lower case.
#[test]
fn test_next_id_steps() {
    assert_eq!(get_next_service_id("a000").unwrap(), "a001");
    assert_eq!(get_next_service_id("a009").unwrap(), "a00A");
    assert_eq!(get_next_service_id("a00Z").unwrap(), "a00a");
    assert_eq!(get_next_service_id("a00z").unwrap(), "a010");
    assert_eq!(get_next_service_id("9").unwrap(), "A");
    assert_eq!(get_next_service_id("Z").unwrap(), "a");
}

/// Successive ids from one start are pairwise distinct and strictly
/// increasing in the alphabet's order.
#[test]
fn test_next_id_monotonic_batch() {
    let mut id = "zx".to_string();
    let mut seen = vec![id.clone()];
    for _ in 0..2 {
        id = get_next_service_id(&id).unwrap();
        assert!(!seen.contains(&id));
        seen.push(id.clone());
    }
    assert_eq!(seen, vec!["zx".to_string(), "zy".to_string(), "zz".to_string()]);
}

/// An id made only of the alphabet's last symbol has no successor: the id
/// space is exhausted, and the call reports it rather than wrapping.
#[test]
fn test_next_id_overflow() {
    assert!(matches!(
        get_next_service_id("zz"),
        Err(CircuitTemplateError::IdSpaceExhausted)
    ));
    assert!(matches!(
        get_next_service_id("z"),
        Err(CircuitTemplateError::IdSpaceExhausted)
    ));
    assert!(matches!(
        get_next_service_id(""),
        Err(CircuitTemplateError::IdSpaceExhausted)
    ));
}

/// A character outside the alphabet, at any position, is an input error,
/// not a panic — also left of the position the carry would touch.
#[test]
fn test_next_id_invalid_character() {
    assert!(matches!(
        get_next_service_id("a0-z"),
        Err(CircuitTemplateError::InvalidIdCharacter(_))
    ));
    assert!(matches!(
        get_next_service_id("!0"),
        Err(CircuitTemplateError::InvalidIdCharacter(_))
    ));
}

/// A user-supplied value wins over a declared default.
#[test]
fn test_argument_precedence() {
    let mut arg = RuleArgument::new_optional_argument("color", "blue");
    arg.set_user_value("red");
    let args = vec![arg];
    assert_eq!(get_argument_value("$(color)", &args).unwrap(), "red");
}

/// A required argument without a user value fails resolution; the same
/// declaration, optional and with a default, resolves to the default.
#[test]
fn test_required_argument_enforcement() {
    let required = vec![RuleArgument::new_required_argument("color")];
    assert!(matches!(
        get_argument_value("$(color)", &required),
        Err(CircuitTemplateError::MissingArgument(_))
    ));

    let optional = vec![RuleArgument::new_optional_argument("color", "blue")];
    assert_eq!(get_argument_value("$(color)", &optional).unwrap(), "blue");
}

/// An optional argument with neither value nor default is its own failure.
#[test]
fn test_no_default_value() {
    let arg = RuleArgument::new_declared("color".to_string(), false, None);
    assert!(matches!(
        get_argument_value("$(color)", &vec![arg]),
        Err(CircuitTemplateError::NoDefaultValue(_))
    ));
}

/// A token that names no declared argument passes through as a literal, and
/// so does plain text.
#[test]
fn test_literal_pass_through() {
    let args: Vec<RuleArgument> = Vec::new();
    assert_eq!(get_argument_value("$(unknown)", &args).unwrap(), "$(unknown)");
    assert_eq!(get_argument_value("plain", &args).unwrap(), "plain");
}

/// A default that is the reserved signer token is followed one step to the
/// caller-supplied signer key; without a signer key the resolution fails.
#[test]
fn test_signer_default_indirection() {
    let keys = RuleArgument::new_optional_argument("admin-keys", "$(a:SIGNER_PUB_KEY)");
    let mut signer = RuleArgument::new_required_argument("signer_pub_key");
    signer.set_user_value("key-bytes");
    let args = vec![keys, signer];
    assert_eq!(get_argument_value("$(admin-keys)", &args).unwrap(), "key-bytes");

    let keys_alone = vec![RuleArgument::new_optional_argument(
        "admin-keys",
        "$(a:SIGNER_PUB_KEY)",
    )];
    assert!(matches!(
        get_argument_value("$(admin-keys)", &keys_alone),
        Err(CircuitTemplateError::MissingSignerKey)
    ));
}

/// A default that is not the signer token is used exactly as declared, a
/// `$(...)`-shaped default included: no indirection is performed for it.
#[test]
fn test_marked_default_used_literally() {
    let args = vec![RuleArgument::new_optional_argument("color", "$(fallback)")];
    assert_eq!(get_argument_value("$(color)", &args).unwrap(), "$(fallback)");
}

/// The `$(...)` marker is recognized and stripped, and the inner name is
/// lower-cased.
#[test]
fn test_strip_arg_marker() {
    assert!(is_arg("$(NODES)"));
    assert!(!is_arg("NODES"));
    assert!(!is_arg("$()x"));
    assert_eq!(strip_arg_marker("$(cs:NODES)").unwrap(), "cs:nodes");
    assert_eq!(strip_arg_marker("$(Admin-Keys)").unwrap(), "admin-keys");
    assert!(matches!(
        strip_arg_marker("nodes"),
        Err(CircuitTemplateError::InvalidArgumentName(_))
    ));
}

/// A namespace prefix before a colon is not part of a name's base.
#[test]
fn test_base_name() {
    assert_eq!(base_name("cs:nodes"), "nodes");
    assert_eq!(base_name("nodes"), "nodes");
    assert_eq!(base_name("a:b:c"), "b:c");
}

/// A pattern without a star must equal the id; with stars, every piece must
/// occur somewhere in the id.
#[test]
fn test_is_match() {
    assert!(is_match("a000", "a000"));
    assert!(!is_match("a000", "a0000"));
    assert!(is_match("a0*", "a012"));
    assert!(is_match("*12", "a012"));
    assert!(is_match("a*2", "a012"));
    assert!(!is_match("a*9", "a012"));
    assert!(is_match("*", "anything"));
}
