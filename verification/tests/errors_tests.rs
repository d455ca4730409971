use mikros::context::Context;
use mikros::definition::Definitions;
use mikros::env::Env;
use mikros::errors::{Error, ServiceError};
use mikros::registry::FeatureRegistry;
use mikros::wire::{from_wire, to_wire};

fn build_definitions() -> Definitions {
    Definitions {
        name: "my-service".to_string(),
        version: "0.1.0".to_string(),
        language: "rust".to_string(),
        product: "test".to_string(),
        envs: None,
        log: None,
        clients: Vec::new(),
        types: vec![mikros::definition::Service::parse("http").unwrap()],
    }
}

fn build_context() -> Context {
    Context::new(Env::default(), build_definitions(), FeatureRegistry::new())
}

fn attributes() -> Vec<(String, String)> {
    vec![("key".to_string(), "value".to_string())]
}

fn rpc_error(ctx: &Context) -> ServiceError {
    ServiceError::rpc(ctx, "http", "connection failed")
        .with_code(42)
        .with_attributes(attributes())
}

fn round_trip(error: ServiceError) -> ServiceError {
    let payload = to_wire(&error.conceal());
    from_wire(payload.as_str()).unwrap()
}

#[test]
fn test_complete_service_error() {
    let ctx = build_context();
    let error = rpc_error(&ctx);

    assert_eq!(error.code, 42);
    assert_eq!(error.kind, "RPCError");
    assert_eq!(error.message.unwrap(), "connection failed");
    assert_eq!(error.service_name.unwrap(), "my-service");
    assert_eq!(error.attributes.unwrap(), attributes());
    assert_eq!(error.destination.unwrap(), "http");
}

#[test]
fn test_service_error_without_message_field() {
    let ctx = build_context();
    let error = rpc_error(&ctx).hide_field("message");

    let deserialized = round_trip(error);

    assert_eq!(deserialized.code, 42);
    assert_eq!(deserialized.kind, "RPCError");
    assert_eq!(deserialized.message.is_none(), true);
    assert_eq!(deserialized.service_name.unwrap(), "my-service");
    assert_eq!(deserialized.attributes.unwrap(), attributes());
    assert_eq!(deserialized.destination.unwrap(), "http");
}

#[test]
fn test_service_error_without_service_name_field() {
    let ctx = build_context();
    let error = rpc_error(&ctx).hide_field("service_name");

    let deserialized = round_trip(error);

    assert_eq!(deserialized.code, 42);
    assert_eq!(deserialized.kind, "RPCError");
    assert_eq!(deserialized.message.unwrap(), "connection failed");
    assert_eq!(deserialized.service_name.is_none(), true);
    assert_eq!(deserialized.attributes.unwrap(), attributes());
    assert_eq!(deserialized.destination.unwrap(), "http");
}

#[test]
fn test_service_error_without_attributes_field() {
    let ctx = build_context();
    let error = rpc_error(&ctx).hide_field("attributes");

    let deserialized = round_trip(error);

    assert_eq!(deserialized.code, 42);
    assert_eq!(deserialized.kind, "RPCError");
    assert_eq!(deserialized.message.unwrap(), "connection failed");
    assert_eq!(deserialized.service_name.unwrap(), "my-service");
    assert_eq!(deserialized.attributes.is_none(), true);
    assert_eq!(deserialized.destination.unwrap(), "http");
}

#[test]
fn test_service_error_without_destination_field() {
    let ctx = build_context();
    let error = rpc_error(&ctx).hide_field("destination");

    let deserialized = round_trip(error);

    assert_eq!(deserialized.code, 42);
    assert_eq!(deserialized.kind, "RPCError");
    assert_eq!(deserialized.message.unwrap(), "connection failed");
    assert_eq!(deserialized.service_name.unwrap(), "my-service");
    assert_eq!(deserialized.attributes.unwrap(), attributes());
    assert_eq!(deserialized.destination.is_none(), true);
}

#[test]
fn test_service_error_without_all_fields() {
    let ctx = build_context();
    let error = rpc_error(&ctx)
        .hide_field("message")
        .hide_field("service_name")
        .hide_field("attributes")
        .hide_field("destination");

    let deserialized = round_trip(error);

    assert_eq!(deserialized.code, 42);
    assert_eq!(deserialized.kind, "RPCError");
    assert_eq!(deserialized.message.is_none(), true);
    assert_eq!(deserialized.service_name.is_none(), true);
    assert_eq!(deserialized.attributes.is_none(), true);
    assert_eq!(deserialized.destination.is_none(), true);
}

#[test]
fn test_create_all_service_error_kind() {
    let ctx = build_context();

    let internal = ServiceError::internal(&ctx, "some internal error");
    assert_eq!(internal.kind, "InternalError".to_string());

    let not_found = ServiceError::not_found(&ctx);
    assert_eq!(not_found.kind, "NotFoundError".to_string());

    let invalid_arguments = ServiceError::invalid_arguments(&ctx, Vec::new());
    assert_eq!(invalid_arguments.kind, "ValidationError".to_string());

    let precondition_failed = ServiceError::precondition_failed(&ctx, "precondition failed");
    assert_eq!(precondition_failed.kind, "ConditionError".to_string());

    let rpc = ServiceError::rpc(&ctx, "example-http", "connection failed");
    assert_eq!(rpc.kind, "RPCError".to_string());

    let custom = ServiceError::custom(&ctx, "custom error");
    assert_eq!(custom.kind, "CustomError".to_string());

    let permission_denied = ServiceError::permission_denied(&ctx);
    assert_eq!(permission_denied.kind, "PermissionError".to_string());
}

#[test]
fn test_redaction_is_one_way_and_idempotent() {
    let ctx = build_context();
    let error = rpc_error(&ctx)
        .hide_field("message")
        .hide_field("destination");

    let concealed = error.conceal();
    assert!(concealed.message.is_none());
    assert!(concealed.destination.is_none());
    assert_eq!(concealed.code, 42);
    assert_eq!(concealed.kind, "RPCError");
    assert_eq!(concealed.service_name.clone().unwrap(), "my-service");

    let payload = to_wire(&concealed);
    let deserialized = from_wire(payload.as_str()).unwrap();
    assert!(deserialized.message.is_none());
    assert!(deserialized.destination.is_none());
    assert_eq!(deserialized.code, 42);
    assert_eq!(deserialized.kind, "RPCError");
    assert_eq!(deserialized.service_name.clone().unwrap(), "my-service");

    // re-serializing the deserialized value reproduces the payload byte
    // for byte, and a second redaction pass changes nothing
    let reserialized = to_wire(&deserialized);
    assert_eq!(reserialized, payload);
    let twice = deserialized.conceal();
    let twice_payload = to_wire(&twice);
    assert_eq!(twice_payload, reserialized);
}

#[test]
fn test_wire_escapes_quotes_and_backslashes() {
    let ctx = build_context();
    let error = ServiceError::internal(&ctx, "a \"quoted\" \\ message");
    let payload = to_wire(&error);
    let deserialized = from_wire(payload.as_str()).unwrap();
    assert_eq!(deserialized.message.unwrap(), "a \"quoted\" \\ message");
    assert!(from_wire("not an envelope").is_none());
    assert!(from_wire("{\"code\":1,\"kind\":\"X\"").is_none());
}

#[test]
fn test_wire_payload_exact_text() {
    let ctx = build_context();
    let error = rpc_error(&ctx);
    assert_eq!(
        to_wire(&error),
        "{\"code\":42,\"kind\":\"RPCError\",\"message\":\"connection failed\",\
         \"service_name\":\"my-service\",\"attributes\":{\"key\":\"value\"},\
         \"destination\":\"http\"}"
    );

    let negative = ServiceError::not_found(&ctx).with_code(-7).conceal();
    let payload = to_wire(&negative);
    assert_eq!(
        payload,
        "{\"code\":-7,\"kind\":\"NotFoundError\",\"message\":\"not found\",\
         \"service_name\":\"my-service\"}"
    );
    let back = from_wire(payload.as_str()).unwrap();
    assert_eq!(back.code, -7);
    assert_eq!(back.kind, "NotFoundError");
}

#[test]
fn test_wire_escapes_control_characters() {
    let ctx = build_context();
    let error = ServiceError::internal(&ctx, "line one\nline two\ttabbed\u{1f}");
    let payload = to_wire(&error);
    // control characters travel as four-digit lowercase hexadecimal
    // escapes, so the payload holds no raw control character
    assert!(payload.contains("line one\\u000aline two\\u0009tabbed\\u001f"));
    assert!(!payload.contains('\n'));
    assert!(!payload.contains('\t'));
    let deserialized = from_wire(payload.as_str()).unwrap();
    assert_eq!(deserialized.message.unwrap(), "line one\nline two\ttabbed\u{1f}");
    assert_eq!(to_wire(&from_wire(payload.as_str()).unwrap()), payload);
}

#[test]
fn test_wire_empty_attributes_round_trip() {
    let ctx = build_context();
    let error = ServiceError::custom(&ctx, "x").with_attributes(Vec::new());
    let payload = to_wire(&error);
    assert!(payload.contains("\"attributes\":{}"));
    let back = from_wire(payload.as_str()).unwrap();
    assert_eq!(back.attributes.unwrap(), Vec::new());
}

#[test]
fn test_http_status_mapping() {
    let ctx = build_context();
    assert_eq!(ServiceError::internal(&ctx, "x").http_status(), 500);
    assert_eq!(ServiceError::not_found(&ctx).http_status(), 404);
    assert_eq!(ServiceError::invalid_arguments(&ctx, Vec::new()).http_status(), 400);
    assert_eq!(ServiceError::precondition_failed(&ctx, "x").http_status(), 412);
    assert_eq!(ServiceError::rpc(&ctx, "svc", "x").http_status(), 500);
    assert_eq!(ServiceError::custom(&ctx, "x").http_status(), 500);
    assert_eq!(ServiceError::permission_denied(&ctx).http_status(), 403);
}

#[test]
fn test_concealable_fields_come_from_environment() {
    let mut env = Env::default();
    env.hide_response_fields = Some("Message,DESTINATION".to_string());
    let ctx = Context::new(env, build_definitions(), FeatureRegistry::new());
    let concealed = rpc_error(&ctx).conceal();
    assert!(concealed.message.is_none());
    assert!(concealed.destination.is_none());
    assert_eq!(concealed.service_name.unwrap(), "my-service");
    assert_eq!(concealed.attributes.unwrap(), attributes());
}

#[test]
fn test_error_descriptions() {
    assert_eq!(
        mikros::errors::Error::InvalidDefinitions("bad".to_string()).description(),
        "invalid service definitions: bad"
    );
    assert_eq!(
        Error::EmptyServiceFound.description(),
        "cannot execute without a service implementation"
    );
    assert_eq!(
        Error::FeatureNotFound("simple_api".to_string()).description(),
        "feature simple_api not found"
    );
    assert_eq!(
        Error::UnsupportedServicesCombination.description(),
        "unsupported services combination"
    );
    assert_eq!(
        Error::ServiceKindUninitialized(mikros::definition::ServiceKind::Grpc).description(),
        "service type uninitialized: grpc"
    );
}
