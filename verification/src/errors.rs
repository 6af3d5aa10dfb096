//! Error types of the template engine.
//!
//! Every failure of the engine is reported through one of these types; the
//! engine itself never panics. The variants follow the engine's failure
//! taxonomy: parse failures, version failures, rule lookup failures, payload
//! format failures, argument resolution failures, id-generation failures and
//! builder failures.

use vstd::prelude::*;
use vstd::string::*;

verus! {

/// Why building a `CreateCircuit` or `SplinterService` value failed.
#[derive(Debug)]
pub enum BuilderError {
    MissingField(String),
    SerializationError(String),
    DeserializationError(String),
    SigningError(String),
}

/// Why evaluating a circuit template failed.
#[derive(Debug)]
pub enum CircuitTemplateError {
    /// The template text could not be parsed.
    Parse(String),
    /// The document names a template version this engine does not support.
    UnsupportedVersion(String),
    /// A rule named in the document is registered in neither registry.
    RuleNotFound(String),
    /// A rule's payload does not match that rule's schema.
    PayloadFormat(String),
    /// An argument is required but no value was provided for it.
    MissingArgument(String),
    /// An argument has neither a user-supplied value nor a declared default.
    NoDefaultValue(String),
    /// A default names the reserved signer public key, but the caller
    /// supplied no signer key.
    MissingSignerKey,
    /// A name that was expected to be a `$(...)` reference is not one.
    InvalidArgumentName(String),
    /// A service id holds a character outside the id alphabet.
    InvalidIdCharacter(String),
    /// The id space is exhausted: no further service id can be minted.
    IdSpaceExhausted,
    /// The `first-service` field of a `create-services` rule is empty.
    EmptyFirstService,
    /// The resolved node list of a `create-services` rule is empty.
    EmptyNodeList,
    /// An invariant of the engine itself was broken.
    Internal(String),
    /// The final builder refused the assembled fields.
    Builder(BuilderError),
}

impl BuilderError {
    /// A human-readable description of the failure.
    pub fn message(&self) -> String {
        match self {
            BuilderError::MissingField(s) => crate::text::concat_strs("MissingField: ", s),
            BuilderError::SerializationError(s) => crate::text::concat_strs(
                "SerializationError: ",
                s,
            ),
            BuilderError::DeserializationError(s) => crate::text::concat_strs(
                "DeserializationError: ",
                s,
            ),
            BuilderError::SigningError(s) => crate::text::concat_strs("SigningError: ", s),
        }
    }
}

impl CircuitTemplateError {
    /// A human-readable description of the failure.
    pub fn message(&self) -> String {
        match self {
            CircuitTemplateError::Parse(s) => crate::text::concat_strs(
                "Failed to parse template: ",
                s,
            ),
            CircuitTemplateError::UnsupportedVersion(s) => crate::text::concat_strs(
                "Invalid template version: ",
                s,
            ),
            CircuitTemplateError::RuleNotFound(s) => crate::text::concat_strs("Rule not found: ", s),
            CircuitTemplateError::PayloadFormat(s) => crate::text::concat_strs(
                "The rule payload is not in the correct format: ",
                s,
            ),
            CircuitTemplateError::MissingArgument(s) => crate::text::concat_strs(
                "Argument is required but was not provided: ",
                s,
            ),
            CircuitTemplateError::NoDefaultValue(s) => crate::text::concat_strs(
                "Argument was not provided and no default value is set: ",
                s,
            ),
            CircuitTemplateError::MissingSignerKey => String::from_str(
                "Signer public key was not provided",
            ),
            CircuitTemplateError::InvalidArgumentName(s) => crate::text::concat_strs(
                "Not a valid argument name: ",
                s,
            ),
            CircuitTemplateError::InvalidIdCharacter(s) => crate::text::concat_strs(
                "The service id contains an invalid character; only alphanumeric ASCII characters are allowed: ",
                s,
            ),
            CircuitTemplateError::IdSpaceExhausted => String::from_str(
                "Exceeded the number of services that can be built",
            ),
            CircuitTemplateError::EmptyFirstService => String::from_str(
                "The first_service field must be a non-empty string",
            ),
            CircuitTemplateError::EmptyNodeList => String::from_str(
                "The NODES argument must name at least one node",
            ),
            CircuitTemplateError::Internal(s) => crate::text::concat_strs(
                "The template engine encountered an internal error: ",
                s,
            ),
            CircuitTemplateError::Builder(err) => {
                let prefix = String::from_str("Failed to build: ");
                prefix.concat(err.message().as_str())
            },
        }
    }
}

} // verus!
