//! Evaluating whole templates: loading, the version guard, rule dispatch in
//! document order, and the built-in rules end to end.

use circuit_template::create_services::{ArgValue, CreateServices, ServiceArgument};
use circuit_template::document::{load_template, Template};
use circuit_template::errors::CircuitTemplateError;
use circuit_template::messages::CreateCircuitBuilder;
use circuit_template::set_management_type::CircuitManagementTypeRule;
use circuit_template::template::Builders;

static EXAMPLE_TEMPLATE_YAML: &[u8; 407] = br##"version: v0.1
args:
    - name: admin-keys
      required: false
      default: $(a:SIGNER_PUB_KEY)
rules:
    set-management-type:
        management-type: "gameroom"
    create-services:
        service-type: 'scabbard'
        service-args:
        - key: 'admin-keys'
          value: $(admin-keys)
        - key: 'peer-services'
          value: '$(r:ALL_OTHER_SERVICES)'
        first-service: 'a000' "##;

fn nodes_args(nodes: &str) -> Vec<(String, String)> {
    vec![("NODES".to_string(), nodes.to_string())]
}

/// Verifies that Builders can be parsed from template v0.1 and correctly
/// applies the set-management-type rule. The declared `admin-keys` default
/// is the reserved signer token, so the caller supplies the signer key and
/// the argument resolves to it.
#[test]
fn test_builds_template_v0_1() {
    let mut args = nodes_args("alpha-node-000,beta-node-000");
    args.push(("SIGNER_PUB_KEY".to_string(), "signer_key".to_string()));
    let builders = Builders::try_from_template(EXAMPLE_TEMPLATE_YAML, &args)
        .expect("Error getting builders from templates");
    let circuit_create_builder = builders.create_circuit_builder();
    assert_eq!(
        circuit_create_builder.circuit_management_type(),
        Some("gameroom".to_string())
    );
    let service_builders = builders.service_builders();
    let service_alpha_node = service_builders
        .iter()
        .find(|service| service.allowed_nodes() == Some(vec!["alpha-node-000".to_string()]))
        .expect("service builder for alpha-node was not created correctly");

    assert_eq!(service_alpha_node.service_id(), Some("a000".to_string()));
    assert_eq!(
        service_alpha_node.service_type(),
        Some("scabbard".to_string())
    );

    let alpha_service_args = service_alpha_node
        .arguments()
        .expect("service for alpha node has no arguments set");
    println!("alpha_service_args {:?}", alpha_service_args);
    assert!(alpha_service_args
        .iter()
        .any(|(key, value)| key == "admin-keys" && value == "signer_key"));
    assert!(alpha_service_args
        .iter()
        .any(|(key, value)| key == "peer-services" && value == "[\"a001\"]"));

    let service_beta_node = service_builders
        .iter()
        .find(|service| service.allowed_nodes() == Some(vec!["beta-node-000".to_string()]))
        .expect("service builder for beta-node was not created correctly");

    assert_eq!(service_beta_node.service_id(), Some("a001".to_string()));
    assert_eq!(
        service_beta_node.service_type(),
        Some("scabbard".to_string())
    );

    let beta_service_args = service_beta_node
        .arguments()
        .expect("service for beta node has no arguments set");
    println!("beta_service_args {:?}", beta_service_args);
    assert!(beta_service_args
        .iter()
        .any(|(key, value)| key == "admin-keys" && value == "signer_key"));
    assert!(beta_service_args
        .iter()
        .any(|(key, value)| key == "peer-services" && value == "[\"a000\"]"));
}

/// A declared default that is the reserved signer token needs the caller's
/// signer key: without one the evaluation fails with the signer error.
#[test]
fn test_missing_signer_key() {
    let args = nodes_args("alpha-node-000,beta-node-000");
    let result = Builders::try_from_template(EXAMPLE_TEMPLATE_YAML, &args);
    assert!(matches!(result, Err(CircuitTemplateError::MissingSignerKey)));
}

/// Verifies load_template correctly loads a template version 0.1.
#[test]
fn test_parse_template_v0_1() {
    let template_version = load_template(EXAMPLE_TEMPLATE_YAML).expect("failed to load template");
    match template_version {
        Template::V0_1(template) => {
            assert_eq!(&template.version(), "v0.1");
            let args = template.args();
            assert!(args.iter().any(|arg| arg.name() == "admin-keys"
                && arg.required() == false
                && arg.default_value() == Some("$(a:SIGNER_PUB_KEY)".into())));

            assert_eq!(
                template
                    .rules()
                    .set_management_type()
                    .expect("Did not parse set_management_type rule")
                    .management_type(),
                "gameroom".to_string()
            );

            let create_services = template
                .rules()
                .create_services()
                .expect("Did not parse create_services rule");
            assert_eq!(&create_services.service_type(), "scabbard");

            assert_eq!(&create_services.first_service(), "a000");

            let service_args = create_services.service_args();
            assert!(service_args.iter().any(|arg| arg.key() == "admin-keys"
                && matches!(arg.value(), ArgValue::Single(v) if v == "$(admin-keys)")));
            assert!(service_args.iter().any(|arg| arg.key() == "peer-services"
                && matches!(arg.value(), ArgValue::Single(v) if v == "$(r:ALL_OTHER_SERVICES)")));
        }
    }
}

/// Test that CreateServices::apply_rule correctly sets up the service
/// builders.
#[test]
fn test_create_service_apply_rules() {
    let create_services = make_create_service();
    let template_arguments = make_rule_arguments();

    let service_builders = create_services
        .apply_rule(&template_arguments)
        .expect("Failled to apply rules");

    assert_eq!(service_builders.len(), 2);

    assert_eq!(
        service_builders[0].allowed_nodes(),
        Some(vec!["alpha-node-000".to_string()])
    );
    assert_eq!(service_builders[0].service_id(), Some("a000".to_string()));
    assert_eq!(
        service_builders[0].service_type(),
        Some("scabbard".to_string())
    );

    let service_args = service_builders[0]
        .arguments()
        .expect("Services args were not set");
    assert_eq!(service_args.len(), 2);
    assert_eq!(
        service_args[0],
        ("peer-services".to_string(), "[\"a001\"]".to_string())
    );
    assert_eq!(
        service_args[1],
        ("admin-keys".to_string(), "[\"signer_key\"]".to_string())
    );

    assert_eq!(
        service_builders[1].allowed_nodes(),
        Some(vec!["beta-node-000".to_string()])
    );
    assert_eq!(service_builders[1].service_id(), Some("a001".to_string()));
    assert_eq!(
        service_builders[1].service_type(),
        Some("scabbard".to_string())
    );

    let service_args = service_builders[1]
        .arguments()
        .expect("Services args were not set");
    assert_eq!(service_args.len(), 2);
    assert_eq!(
        service_args[0],
        ("peer-services".to_string(), "[\"a000\"]".to_string())
    );
    assert_eq!(
        service_args[1],
        ("admin-keys".to_string(), "[\"signer_key\"]".to_string())
    );

    // test that building services succeeds:
    assert!(service_builders[0].clone().build().is_ok());
    assert!(service_builders[1].clone().build().is_ok());
}

fn make_create_service() -> CreateServices {
    let peer_services_arg = ServiceArgument::new(
        "peer-services",
        ArgValue::Single("$(cs:ALL_OTHER_SERVICES)".to_string()),
    );
    let admin_keys_arg = ServiceArgument::new(
        "admin-keys",
        ArgValue::List(vec!["$(cs:ADMIN_KEYS)".to_string()]),
    );

    CreateServices::new("scabbard", vec![peer_services_arg, admin_keys_arg], "a000")
}

fn make_rule_arguments() -> Vec<circuit_template::args::RuleArgument> {
    let admin_keys_templae_arg = circuit_template::args::RuleArgument::new_optional_argument(
        "cs:admin_keys",
        "$(SIGNER_PUB_KEY)",
    );

    let mut nodes_templae_arg =
        circuit_template::args::RuleArgument::new_required_argument("cs:nodes");
    nodes_templae_arg.set_user_value("alpha-node-000,beta-node-000");

    let mut signer_pub_key =
        circuit_template::args::RuleArgument::new_required_argument("signer_pub_key");
    signer_pub_key.set_user_value("signer_key");

    vec![admin_keys_templae_arg, nodes_templae_arg, signer_pub_key]
}

/// Verifies CircuitManagementTypeRule correctly parses the payload and
/// applies it to the circuit_create_builder.
#[test]
fn test_apply_circuit_management_rule() {
    let management_type_yaml = b"management-type: \"gameroom\"";

    let circuit_management_rule = CircuitManagementTypeRule::default();

    let builder = CreateCircuitBuilder::new();

    let result = circuit_management_rule.apply(management_type_yaml, builder);
    assert!(result.is_ok());

    let circuit_create_builder = result.unwrap();
    assert_eq!(
        circuit_create_builder.circuit_management_type(),
        Some("gameroom".to_string())
    );
}

/// Verifies CreateServicesRule correctly parses the payload and applies it
/// to the splinter_services_builders.
#[test]
fn test_apply_create_services_rule() {
    let management_type_yaml = b"management-type: \"gameroom\"";

    let circuit_management_rule = CircuitManagementTypeRule::default();

    let builder = CreateCircuitBuilder::new();

    let result = circuit_management_rule.apply(management_type_yaml, builder);
    assert!(result.is_ok());

    let circuit_create_builder = result.unwrap();
    assert_eq!(
        circuit_create_builder.circuit_management_type(),
        Some("gameroom".to_string())
    );
}

/// A template whose only rule sets the management type yields a circuit
/// builder carrying exactly that management type.
#[test]
fn test_management_type_only_template() {
    let yaml = br##"version: v0.1
args: []
rules:
    set-management-type:
        management-type: "gameroom"
"##;
    let builders = Builders::try_from_template(yaml, &Vec::new()).expect("evaluation failed");
    assert_eq!(
        builders.create_circuit_builder().circuit_management_type(),
        Some("gameroom".to_string())
    );
    assert!(builders.service_builders().is_empty());
}

/// A rule name registered in neither registry fails the evaluation with a
/// rule-not-found error, and no builders are returned.
#[test]
fn test_unknown_rule_name_fails() {
    let yaml = br##"version: v0.1
args: []
rules:
    set-coordination-epoch:
        epoch: "9"
"##;
    let result = Builders::try_from_template(yaml, &Vec::new());
    assert!(matches!(result, Err(CircuitTemplateError::RuleNotFound(_))));
}

/// An unsupported version is its own error, distinct from a parse failure.
#[test]
fn test_unsupported_version() {
    let yaml = br##"version: v2.0
args: []
rules:
    set-management-type:
        management-type: "gameroom"
"##;
    let result = Builders::try_from_template(yaml, &Vec::new());
    assert!(matches!(
        result,
        Err(CircuitTemplateError::UnsupportedVersion(_))
    ));
}

/// Text that is not YAML at all is a parse error.
#[test]
fn test_unparseable_template() {
    let result = Builders::try_from_template(b"{{{ not yaml", &Vec::new());
    assert!(matches!(result, Err(CircuitTemplateError::Parse(_))));
}

/// A malformed rule payload is a payload-format error.
#[test]
fn test_malformed_management_payload() {
    let yaml = br##"version: v0.1
args: []
rules:
    set-management-type:
        wrong-key: "gameroom"
"##;
    let result = Builders::try_from_template(yaml, &Vec::new());
    assert!(matches!(result, Err(CircuitTemplateError::PayloadFormat(_))));
}

/// The carry steps over the alphabet's last symbol: starting a three-node
/// batch at `a00z` mints `a00z`, `a010`, `a011`.
#[test]
fn test_carry_across_positions() {
    let yaml = br##"version: v0.1
args: []
rules:
    create-services:
        service-type: 'scabbard'
        service-args: []
        first-service: 'a00z'
"##;
    let args = nodes_args("alpha,beta,gamma");
    let builders = Builders::try_from_template(yaml, &args).expect("evaluation failed");
    let ids: Vec<String> = builders
        .service_builders()
        .iter()
        .map(|b| b.service_id().unwrap())
        .collect();
    assert_eq!(ids, vec!["a00z".to_string(), "a010".to_string(), "a011".to_string()]);
}

/// Every service's peer list holds exactly the other ids of the batch,
/// never its own.
#[test]
fn test_all_other_services_completeness() {
    let yaml = br##"version: v0.1
args: []
rules:
    create-services:
        service-type: 'scabbard'
        service-args:
        - key: 'peer-services'
          value: '$(r:ALL_OTHER_SERVICES)'
        first-service: 'b00'
"##;
    let args = nodes_args("n1,n2,n3");
    let builders = Builders::try_from_template(yaml, &args).expect("evaluation failed");
    let service_builders = builders.service_builders();
    assert_eq!(service_builders.len(), 3);
    let expected = ["[\"b01\",\"b02\"]", "[\"b00\",\"b02\"]", "[\"b00\",\"b01\"]"];
    for (i, b) in service_builders.iter().enumerate() {
        let args = b.arguments().expect("arguments were not set");
        assert_eq!(args.len(), 1);
        assert_eq!(args[0].0, "peer-services");
        assert_eq!(args[0].1, expected[i]);
    }
}

/// Evaluating the same template twice with the same arguments yields
/// identical builder field values.
#[test]
fn test_deterministic_evaluation() {
    let mut args = nodes_args("alpha-node-000,beta-node-000");
    args.push(("SIGNER_PUB_KEY".to_string(), "signer_key".to_string()));
    let first = Builders::try_from_template(EXAMPLE_TEMPLATE_YAML, &args).expect("first run");
    let second = Builders::try_from_template(EXAMPLE_TEMPLATE_YAML, &args).expect("second run");
    assert_eq!(
        first.create_circuit_builder().circuit_management_type(),
        second.create_circuit_builder().circuit_management_type()
    );
    let firsts = first.service_builders();
    let seconds = second.service_builders();
    assert_eq!(firsts.len(), seconds.len());
    for (a, b) in firsts.iter().zip(seconds.iter()) {
        assert_eq!(a.service_id(), b.service_id());
        assert_eq!(a.service_type(), b.service_type());
        assert_eq!(a.allowed_nodes(), b.allowed_nodes());
        assert_eq!(a.arguments(), b.arguments());
    }
}

/// The set-metadata rule renders its entries into the engine's JSON-style
/// byte string on the circuit builder.
#[test]
fn test_set_metadata_rule() {
    let yaml = br##"version: v0.1
args: []
rules:
    set-metadata:
        metadata:
            encoding: "json"
            metadata:
            - key: 'scope'
              value: 'local'
            - key: 'admins'
              value:
              - 'alice'
              - 'bob'
"##;
    let builders = Builders::try_from_template(yaml, &Vec::new()).expect("evaluation failed");
    let metadata = builders
        .create_circuit_builder()
        .application_metadata()
        .expect("metadata was not set");
    assert_eq!(
        String::from_utf8(metadata).unwrap(),
        "{[\"scope\":\"local\",\"admins\":[\"alice\", \"bob\"]]}"
    );
}

/// An empty `first-service` is rejected before any id is minted.
#[test]
fn test_empty_first_service() {
    let yaml = br##"version: v0.1
args: []
rules:
    create-services:
        service-type: 'scabbard'
        service-args: []
        first-service: ''
"##;
    let result = Builders::try_from_template(yaml, &nodes_args("alpha"));
    assert!(matches!(result, Err(CircuitTemplateError::EmptyFirstService)));
}

/// The `create-services` rule requires the `NODES` argument.
#[test]
fn test_missing_nodes_argument() {
    let yaml = br##"version: v0.1
args: []
rules:
    create-services:
        service-type: 'scabbard'
        service-args: []
        first-service: 'a000'
"##;
    let result = Builders::try_from_template(yaml, &Vec::new());
    assert!(matches!(result, Err(CircuitTemplateError::MissingArgument(_))));
}

/// An empty `NODES` value names no node and is rejected.
#[test]
fn test_empty_node_list() {
    let yaml = br##"version: v0.1
args: []
rules:
    create-services:
        service-type: 'scabbard'
        service-args: []
        first-service: 'a000'
"##;
    let result = Builders::try_from_template(yaml, &nodes_args(""));
    assert!(matches!(result, Err(CircuitTemplateError::EmptyNodeList)));
}

/// A batch whose id space runs out during minting reports exhaustion.
#[test]
fn test_batch_exhausts_id_space() {
    let yaml = br##"version: v0.1
args: []
rules:
    create-services:
        service-type: 'scabbard'
        service-args: []
        first-service: 'z'
"##;
    let result = Builders::try_from_template(yaml, &nodes_args("alpha"));
    assert!(matches!(result, Err(CircuitTemplateError::IdSpaceExhausted)));
}

/// A malformed `create-services` payload is a payload-format error.
#[test]
fn test_malformed_create_services_payload() {
    let yaml = br##"version: v0.1
args: []
rules:
    create-services:
        service-type: 'scabbard'
        first-service: 'a000'
"##;
    let result = Builders::try_from_template(yaml, &nodes_args("alpha"));
    assert!(matches!(result, Err(CircuitTemplateError::PayloadFormat(_))));
}

/// A declared template argument that is required fails the evaluation when
/// a rule refers to it and the caller supplied no value.
#[test]
fn test_required_template_argument() {
    let yaml = br##"version: v0.1
args:
    - name: admin-keys
      required: true
rules:
    create-services:
        service-type: 'scabbard'
        service-args:
        - key: 'admin-keys'
          value: $(admin-keys)
        first-service: 'a000'
"##;
    let result = Builders::try_from_template(yaml, &nodes_args("alpha"));
    assert!(matches!(result, Err(CircuitTemplateError::MissingArgument(_))));

    let mut args = nodes_args("alpha");
    args.push(("ADMIN-KEYS".to_string(), "key-bytes".to_string()));
    let builders = Builders::try_from_template(yaml, &args).expect("evaluation failed");
    let service_builders = builders.service_builders();
    let service_args = service_builders[0].arguments().expect("arguments were not set");
    assert_eq!(service_args[0], ("admin-keys".to_string(), "key-bytes".to_string()));
}
