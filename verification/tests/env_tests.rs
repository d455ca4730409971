use mikros::args::Args;
use mikros::context::Context;
use mikros::definition::Definitions;
use mikros::env::Env;
use mikros::errors::Error;
use mikros::logger::Level;
use mikros::name::ServiceName;
use mikros::registry::FeatureRegistry;

fn definitions() -> Definitions {
    Definitions {
        name: "my-service".to_string(),
        version: "0.1.0".to_string(),
        language: "rust".to_string(),
        product: "test".to_string(),
        envs: None,
        log: None,
        clients: vec![(
            "user".to_string(),
            mikros::definition::Client { host: "localhost".to_string(), port: 7070 },
        )],
        types: vec![mikros::definition::Service::parse("http").unwrap()],
    }
}

#[test]
fn test_env_merge_prefers_suffixed_values() {
    let mut base = Env::default();
    base.defined_envs = vec![("API_KEY".to_string(), "base".to_string())];
    let mut suffixed = Env::default();
    suffixed.deployment_env = "prod".to_string();
    suffixed.coupled_namespace = "".to_string();
    suffixed.grpc_port = 9000;
    suffixed.http_port = 0;

    let merged = base.merge(suffixed);
    assert_eq!(merged.deployment_env, "prod");
    assert_eq!(merged.coupled_namespace, "localhost");
    assert_eq!(merged.grpc_port, 9000);
    assert_eq!(merged.http_port, 8080);
    assert_eq!(merged.get("API_KEY"), Some("base".to_string()));
    assert_eq!(merged.get("OTHER"), None);
}

#[test]
fn test_defined_envs_first_match_wins() {
    let mut env = Env::default();
    env.defined_envs = vec![
        ("A".to_string(), "1".to_string()),
        ("A".to_string(), "2".to_string()),
    ];
    assert_eq!(env.get("A"), Some("1".to_string()));
}

#[test]
fn test_response_fields_split() {
    let mut env = Env::default();
    assert!(env.response_fields().is_none());
    env.hide_response_fields = Some("message,destination".to_string());
    assert_eq!(
        env.response_fields().unwrap(),
        vec!["message".to_string(), "destination".to_string()]
    );
    env.hide_response_fields = Some("".to_string());
    assert_eq!(env.response_fields().unwrap(), vec!["".to_string()]);
}

#[test]
fn test_client_connection_url() {
    let ctx = Context::new(Env::default(), definitions(), FeatureRegistry::new());
    assert_eq!(ctx.client_connection_url("user"), "localhost:7070");
    assert_eq!(ctx.client_connection_url("auth"), "auth.localhost:7070");
    assert_eq!(ctx.service_name(), "my-service");
}

#[test]
fn test_to_snake_case() {
    assert_eq!(ServiceName::new("MyService").to_snake_case(), "my_service");
    assert_eq!(ServiceName::new("my-service").to_snake_case(), "my_service");
    assert_eq!(ServiceName::new("already_snake").to_snake_case(), "already_snake");
    assert_eq!(ServiceName::new("HTTPServer").to_snake_case(), "h_t_t_p_server");
    assert_eq!(ServiceName::new("").to_snake_case(), "");
}

#[test]
fn test_level_names() {
    assert!(matches!(Level::from_str("debug"), Ok(Level::Debug)));
    assert!(matches!(Level::from_str("info"), Ok(Level::Info)));
    assert!(matches!(Level::from_str("warning"), Ok(Level::Warning)));
    assert!(matches!(Level::from_str("error"), Ok(Level::Error)));
    assert_eq!(Level::from_str("verbose").err().unwrap(), "unknown log level verbose");
    assert_eq!(Level::Info.as_str(), "info");
}

#[test]
fn test_header_values() {
    let ctx = Context::new(Env::default(), definitions(), FeatureRegistry::new());
    assert_eq!(mikros::header::to_bool(&ctx, "X-Flag", Some("true")).unwrap(), true);
    assert_eq!(mikros::header::to_bool(&ctx, "X-Flag", Some("TRUE")).unwrap(), true);
    assert_eq!(mikros::header::to_bool(&ctx, "X-Flag", Some("1")).unwrap(), true);
    assert_eq!(mikros::header::to_bool(&ctx, "X-Flag", Some("False")).unwrap(), false);
    assert_eq!(mikros::header::to_bool(&ctx, "X-Flag", Some("0")).unwrap(), false);
    let invalid = mikros::header::to_bool(&ctx, "X-Flag", Some("yes"));
    assert_eq!(invalid.err().unwrap().message.unwrap(), "invalid header value yes");
    let missing = mikros::header::to_bool(&ctx, "X-Flag", None);
    assert_eq!(missing.err().unwrap().message.unwrap(), "missing header X-Flag");
    assert_eq!(
        mikros::header::to_string(&ctx, "X-Id", Some("abc")).unwrap(),
        "abc"
    );
}

#[test]
fn test_feature_registry_lifecycle() {
    // a feature whose gate holds is initialized and cleaned up; one whose
    // gate does not hold never is, and lookups report it unavailable
    let mut registry = FeatureRegistry::new();
    registry
        .register("example".to_string(), true, vec![mikros::features::EXAMPLE_API])
        .unwrap();
    registry.register("gated_off".to_string(), true, Vec::new()).unwrap();
    registry.register("disabled".to_string(), false, Vec::new()).unwrap();
    assert!(registry.register("example".to_string(), true, Vec::new()).is_err());

    assert!(registry.gate_decision(0, true));
    assert!(!registry.gate_decision(1, false));
    assert!(registry.gate_decision(2, true));

    assert_eq!(registry.feature("example").unwrap(), 0);
    assert!(matches!(registry.feature("gated_off"), Err(Error::FeatureDisabled(_))));
    assert!(matches!(registry.feature("disabled"), Err(Error::FeatureDisabled(_))));
    assert!(matches!(registry.feature("unknown"), Err(Error::FeatureNotFound(_))));

    // narrowing yields the capability only where the feature declares it
    assert_eq!(
        registry.narrow(0, mikros::features::EXAMPLE_API),
        Some(mikros::features::EXAMPLE_API)
    );
    assert_eq!(registry.narrow(0, 999), None);

    // cleanup reaches exactly the enabled features that were initialized:
    // neither the gated-off one nor the disabled one is cleaned up
    assert_eq!(registry.cleanup_list(), vec![0]);
}

#[test]
fn test_with_features_extends() {
    // handing features twice accumulates them, in order; a name clash is
    // refused and the builder keeps what it already holds
    let mut builder = mikros::builder::ServiceBuilder::new();

    let mut first = FeatureRegistry::new();
    first.register("example".to_string(), true, vec![mikros::features::EXAMPLE_API]).unwrap();
    builder.with_features(first).unwrap();

    let mut second = FeatureRegistry::new();
    second.register("metrics".to_string(), true, Vec::new()).unwrap();
    builder.with_features(second).unwrap();

    let mut clashing = FeatureRegistry::new();
    clashing.register("example".to_string(), false, Vec::new()).unwrap();
    assert!(matches!(builder.with_features(clashing), Err(Error::BuilderFailed(_))));

    // both earlier hands are still held, under their registration order
    assert_eq!(builder.features.count(), 2);
    assert_eq!(builder.features.feature("example").unwrap(), 0);
    assert_eq!(builder.features.feature("metrics").unwrap(), 1);
}

#[test]
fn test_no_args() {
    let args = vec!["service".to_string()];
    let result = Args::parse(&args);
    assert!(result.is_ok());
    assert_eq!(result.unwrap().help, false);
}

#[test]
fn test_help() {
    let args = vec!["service".to_string(), "--help".to_string()];
    let result = Args::parse(&args);
    assert!(result.is_ok());
    assert_eq!(result.unwrap().help, true);
}

#[test]
fn test_config_option() {
    let args = vec!["service".to_string(), "--config".to_string(), "/path/to/service.toml".to_string()];
    let result = Args::parse(&args);
    assert!(result.is_ok());
    assert_eq!(result.unwrap().config_path.unwrap(), "/path/to/service.toml");
}

#[test]
fn test_missing_config_path_option() {
    let args = vec!["service".to_string(), "--config".to_string()];
    let result = Args::parse(&args);
    assert!(result.is_err());
    assert_eq!(result.unwrap_err(), "error: --config option requires a file path");
}

#[test]
fn test_unknown_option() {
    let args = vec!["service".to_string(), "--unknown".to_string()];
    let result = Args::parse(&args);
    assert!(result.is_err());
    assert_eq!(result.err().unwrap(), "unknown argument: --unknown");
}
