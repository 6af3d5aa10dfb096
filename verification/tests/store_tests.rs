//! The builders and the in-memory defaults and node-alias managers.

use circuit_template::messages::{
    AuthorizationType, CreateCircuitBuilder, DurabilityType, PersistenceType, RouteType,
    SplinterNode, SplinterNodeBuilder, SplinterServiceBuilder,
};
use circuit_template::store::{
    DefaultValueManager, DefaultValueManagerError, Node, NodeManager, NodeManagerError,
};

/// A service builds exactly when its id, type and allowed nodes are set; a
/// missing argument list becomes the empty list.
#[test]
fn test_service_builder() {
    let built = SplinterServiceBuilder::new()
        .with_service_id("a000")
        .with_service_type("scabbard")
        .with_allowed_nodes(&vec!["alpha".to_string()])
        .build()
        .expect("build failed");
    assert_eq!(built.service_id, "a000");
    assert_eq!(built.service_type, "scabbard");
    assert_eq!(built.allowed_nodes, vec!["alpha".to_string()]);
    assert!(built.arguments.is_empty());

    let missing = SplinterServiceBuilder::new().with_service_id("a000").build();
    assert!(missing.is_err());
}

/// A circuit request builds exactly when its required fields are set, and
/// the optional policies fall back to their documented defaults.
#[test]
fn test_circuit_builder_defaults() {
    let service = SplinterServiceBuilder::new()
        .with_service_id("a000")
        .with_service_type("scabbard")
        .with_allowed_nodes(&vec!["alpha".to_string()])
        .build()
        .expect("service build failed");
    let node = SplinterNodeBuilder::new()
        .with_node_id("alpha")
        .with_endpoint("tcp://alpha:8080")
        .build()
        .expect("node build failed");
    let circuit = CreateCircuitBuilder::new()
        .with_circuit_id("circuit-01")
        .with_roster(vec![service])
        .with_members(vec![node])
        .with_circuit_management_type("gameroom")
        .build()
        .expect("circuit build failed");
    assert_eq!(circuit.authorization_type, AuthorizationType::Trust);
    assert_eq!(circuit.persistence, PersistenceType::Any);
    assert_eq!(circuit.durability, DurabilityType::NoDurability);
    assert_eq!(circuit.routes, RouteType::Any);
    assert!(circuit.application_metadata.is_empty());

    let missing = CreateCircuitBuilder::new().with_circuit_id("circuit-01").build();
    assert!(missing.is_err());
}

/// A node needs both its id and its endpoint.
#[test]
fn test_node_builder() {
    let node: SplinterNode = SplinterNodeBuilder::new()
        .with_node_id("alpha")
        .with_endpoint("tcp://alpha:8080")
        .build()
        .expect("node build failed");
    assert_eq!(node.node_id, "alpha");
    assert_eq!(node.endpoint, "tcp://alpha:8080");
    assert!(SplinterNodeBuilder::new().with_node_id("alpha").build().is_err());
}

/// A default is stored once: replacing it needs the overwrite flag, and the
/// stored value reads back.
#[test]
fn test_default_value_manager() {
    let mut manager = DefaultValueManager::new(Vec::new());
    manager
        .set_default_service_type("scabbard", false)
        .expect("first set failed");
    assert!(matches!(
        manager.set_default_service_type("other", false),
        Err(DefaultValueManagerError::AlreadySet(_))
    ));
    manager
        .set_default_service_type("other", true)
        .expect("overwrite failed");
    assert_eq!(
        manager.get_default_service_type().expect("get failed").value(),
        "other"
    );

    manager
        .set_default_management_type("gameroom", false)
        .expect("management set failed");
    let listed = manager.list_defaults().expect("list failed");
    assert_eq!(listed.len(), 2);
    assert_eq!(listed[0].key(), "service_type");
    assert_eq!(listed[1].key(), "management_type");

    manager
        .unset_default_service_type()
        .expect("unset failed");
    assert!(matches!(
        manager.get_default_service_type(),
        Err(DefaultValueManagerError::NotSet(_))
    ));
    assert!(manager.unset_default_service_type().is_err());
}

/// A node alias is stored once, must carry a parseable endpoint, and can be
/// read back, listed and deleted.
#[test]
fn test_node_manager() {
    let mut manager = NodeManager::new(Vec::new());
    let alpha = Node::new("alpha", "tcp://alpha:8080");
    manager.add_node(&alpha, false).expect("add failed");

    assert!(matches!(
        manager.add_node(&Node::new("alpha", "tcp://elsewhere:8080"), false),
        Err(NodeManagerError::DuplicatedValue(_))
    ));

    assert!(matches!(
        manager.add_node(&Node::new("beta", "not a url"), false),
        Err(NodeManagerError::InvalidEndpoint(_))
    ));

    let found = manager
        .get_node("alpha")
        .expect("get failed")
        .expect("alias not found");
    assert_eq!(found.endpoint(), "tcp://alpha:8080");
    assert!(manager.get_node("missing").expect("get failed").is_none());

    manager
        .add_node(&Node::new("beta", "tcp://beta:8080"), false)
        .expect("second add failed");
    let listed = manager.list_nodes().expect("list failed");
    assert_eq!(listed.len(), 2);
    assert_eq!(listed[0].alias(), "alpha");
    assert_eq!(listed[1].alias(), "beta");

    manager.delete_node("alpha").expect("delete failed");
    assert!(manager.get_node("alpha").expect("get failed").is_none());
    assert!(matches!(
        manager.delete_node("alpha"),
        Err(NodeManagerError::StoreError(_))
    ));
}
