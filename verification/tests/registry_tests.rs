//! The rule registries and ordered dispatch, exercised directly.

use circuit_template::errors::CircuitTemplateError;
use circuit_template::rules::{
    CircuitRuleKind, CreateCircuitRules, Rules, ServiceDefinitionRules, ServiceRuleKind,
};
use circuit_template::template::Builders;
use circuit_template::yaml::YamlNode;

/// Lookup is exact-match and case-sensitive, and registering a name again
/// replaces the earlier registration.
#[test]
fn test_circuit_registry() {
    let mut registry = CreateCircuitRules::new();
    assert!(!registry.is_circuit_rule("set-management-type"));
    registry.register_rule("set-management-type", CircuitRuleKind::ManagementType);
    assert!(registry.is_circuit_rule("set-management-type"));
    assert!(!registry.is_circuit_rule("Set-Management-Type"));
    assert!(matches!(
        registry.lookup("set-management-type"),
        Some(CircuitRuleKind::ManagementType)
    ));
    registry.register_rule("set-management-type", CircuitRuleKind::Metadata);
    assert!(matches!(
        registry.lookup("set-management-type"),
        Some(CircuitRuleKind::Metadata)
    ));

    let mut services = ServiceDefinitionRules::new();
    services.register_rule("create-services", ServiceRuleKind::CreateServices);
    assert!(services.is_service_rule("create-services"));
    assert!(!services.is_service_rule("set-management-type"));
}

fn management_entry(name: &str, management_type: &str) -> (String, YamlNode) {
    (
        name.to_string(),
        YamlNode::Mapping(vec![(
            "management-type".to_string(),
            YamlNode::Scalar(management_type.to_string()),
        )]),
    )
}

/// Dispatch applies the rules in order against the accumulated builders.
#[test]
fn test_rules_dispatch() {
    let rules = Rules::new(vec![management_entry("set-management-type", "gameroom")]);
    let mut builders = Builders::new();
    rules
        .apply_rules(&mut builders, &Vec::new())
        .expect("dispatch failed");
    assert_eq!(
        builders.create_circuit_builder().circuit_management_type(),
        Some("gameroom".to_string())
    );
}

/// A rule name in neither registry fails dispatch and leaves the builders
/// untouched.
#[test]
fn test_rules_dispatch_unknown_name() {
    let rules = Rules::new(vec![
        management_entry("set-management-type", "gameroom"),
        management_entry("set-coordination-epoch", "9"),
    ]);
    let mut builders = Builders::new();
    let result = rules.apply_rules(&mut builders, &Vec::new());
    assert!(matches!(result, Err(CircuitTemplateError::RuleNotFound(_))));
    assert_eq!(
        builders.create_circuit_builder().circuit_management_type(),
        None
    );
}

/// Later rules read the state earlier rules left: the last management type
/// wins when the rule appears under one name once.
#[test]
fn test_rules_document_order() {
    let rules = Rules::new(vec![management_entry("set-management-type", "first")]);
    let mut builders = Builders::new();
    rules
        .apply_rules(&mut builders, &Vec::new())
        .expect("dispatch failed");
    let rules_again = Rules::new(vec![management_entry("set-management-type", "second")]);
    rules_again
        .apply_rules(&mut builders, &Vec::new())
        .expect("dispatch failed");
    assert_eq!(
        builders.create_circuit_builder().circuit_management_type(),
        Some("second".to_string())
    );
}
