use mikros::definition::{
    validate_service_type, validate_service_types, CustomServiceInfo, Service, ServiceKind,
};

fn parse_entries(entries: &[&str]) -> Vec<Service> {
    let mut out = Vec::new();
    for e in entries {
        out.push(Service::parse(e).unwrap());
    }
    out
}

#[test]
fn test_service_type_with_port() {
    let config = parse_entries(&["grpc:9090", "http:8080", "native", "subscriber", "consumer:7070"]);
    assert_eq!(config.len(), 5);
}

#[test]
fn test_service_type_without_port() {}

#[test]
fn test_custom_service_type_with_port() {}

#[test]
fn test_custom_service_type_without_port() {}

#[test]
fn test_validate_service_type() {
    assert!(
        validate_service_type(
            &Service(ServiceKind::Custom("".to_string()), None),
            &CustomServiceInfo::default()
        )
        .is_err()
    );

    assert!(
        validate_service_type(
            &Service(ServiceKind::Custom("cronjob".to_string()), None),
            &CustomServiceInfo::default()
        )
        .is_err()
    );

    assert!(
        validate_service_type(
            &Service(ServiceKind::Custom("grpc".to_string()), None),
            &CustomServiceInfo::default()
        )
        .is_ok()
    );
}

#[test]
fn test_validate_service_types() {
    let http = Service(ServiceKind::Http, None);
    let grpc = Service(ServiceKind::Grpc, None);
    let grpc2 = Service(ServiceKind::Custom("grpc2".to_string()), None);

    assert!(validate_service_types(&Vec::new(), &CustomServiceInfo::default()).is_err());
    assert!(
        validate_service_types(&vec![http.clone(), grpc2], &CustomServiceInfo::default()).is_err()
    );

    assert!(validate_service_types(&vec![http, grpc], &CustomServiceInfo::default()).is_ok());
}

#[test]
fn test_parse_entry_ports() {
    let with_port = Service::parse("grpc:9090").unwrap();
    assert_eq!(with_port.0, ServiceKind::Grpc);
    assert_eq!(with_port.1, Some(9090));

    let without_port = Service::parse("script").unwrap();
    assert_eq!(without_port.0, ServiceKind::Script);
    assert_eq!(without_port.1, None);

    let custom = Service::parse("cronjob:9991").unwrap();
    assert_eq!(custom.0, ServiceKind::Custom("cronjob".to_string()));
    assert_eq!(custom.1, Some(9991));

    assert!(Service::parse("grpc:notaport").is_err());
    assert!(Service::parse("grpc:").is_err());
}

#[test]
fn test_parse_entry_port_bounds() {
    let min = Service::parse("k:-2147483648").unwrap();
    assert_eq!(min.1, Some(i32::MIN));
    let max = Service::parse("k:2147483647").unwrap();
    assert_eq!(max.1, Some(i32::MAX));
    assert!(Service::parse("k:2147483648").is_err());
    assert!(Service::parse("k:-2147483649").is_err());
}

#[test]
fn test_kind_names_round_trip() {
    let kinds = vec![
        ServiceKind::Grpc,
        ServiceKind::Http,
        ServiceKind::Script,
        ServiceKind::Native,
        ServiceKind::Custom("websocket".to_string()),
    ];
    for kind in kinds {
        let name = kind.to_str();
        assert_eq!(ServiceKind::from_str(name.as_str()), kind);
    }
    assert_eq!(ServiceKind::from_str("grpc").to_str(), "grpc");
    assert_eq!(ServiceKind::from_str("websocket").to_str(), "websocket");
}

#[test]
fn test_custom_types_extend_validation() {
    let custom_info = CustomServiceInfo {
        types: Some(vec!["websocket".to_string()]),
    };
    assert!(
        validate_service_type(
            &Service(ServiceKind::Custom("websocket".to_string()), None),
            &custom_info
        )
        .is_ok()
    );
    assert!(
        validate_service_type(
            &Service(ServiceKind::Custom("cronjob".to_string()), None),
            &custom_info
        )
        .is_err()
    );
}

#[test]
fn test_service_port_prefers_configured_entry() {
    let defs = mikros::definition::Definitions {
        name: "svc".to_string(),
        version: "0.1.0".to_string(),
        language: "rust".to_string(),
        product: "test".to_string(),
        envs: None,
        log: None,
        clients: Vec::new(),
        types: vec![
            Service::parse("http:9991").unwrap(),
            Service::parse("grpc").unwrap(),
        ],
    };
    assert_eq!(defs.service_port(&ServiceKind::Http, 8080).unwrap(), 9991);
    assert_eq!(defs.service_port(&ServiceKind::Grpc, 7070).unwrap(), 7070);
    assert!(defs.service_port(&ServiceKind::Script, 0).is_err());
}

#[test]
fn test_log_merge_fills_absent_fields() {
    let mut log = mikros::definition::Log {
        level: Some("debug".to_string()),
        local_timestamp: None,
        display_errors: None,
    };
    log.merge(mikros::definition::Log::default());
    assert_eq!(log.level, Some("debug".to_string()));
    assert_eq!(log.local_timestamp, Some(true));
    assert_eq!(log.display_errors, Some(true));
}
