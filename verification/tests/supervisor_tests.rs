use mikros::builder::ServiceBuilder;
use mikros::context::Context;
use mikros::definition::Definitions;
use mikros::env::Env;
use mikros::errors::{Error, ServiceError};
use mikros::plugin::ServiceExecutionMode;
use mikros::registry::FeatureRegistry;
use mikros::service::{RunAction, RunEvent, ShutdownDriver, ShutdownStep, StartupDriver, StartupStep};
use mikros::wire::to_wire;

fn definitions_with(entries: &[&str]) -> Definitions {
    let mut types = Vec::new();
    for e in entries {
        types.push(mikros::definition::Service::parse(e).unwrap());
    }
    Definitions {
        name: "my-service".to_string(),
        version: "0.1.0".to_string(),
        language: "rust".to_string(),
        product: "test".to_string(),
        envs: None,
        log: None,
        clients: Vec::new(),
        types,
    }
}

fn sample_error(msg: &str) -> ServiceError {
    let ctx = Context::new(Env::default(), definitions_with(&["http"]), FeatureRegistry::new());
    ServiceError::internal(&ctx, msg)
}

#[test]
fn test_unregistered_kind_never_runs() {
    // the configuration lists a kind with no registered workload: the
    // startup validation fails and the run phase cannot be entered
    let mut builder = ServiceBuilder::new();
    builder.http().unwrap();
    let service = builder.build(definitions_with(&["http", "grpc"]), Env::default());

    assert!(service.validate_definitions().is_err());
    assert!(matches!(
        service.validate_definitions(),
        Err(Error::ServiceKindUninitialized(mikros::definition::ServiceKind::Grpc))
    ));
    assert!(service.begin_run().is_err());
}

#[test]
fn test_mixed_execution_modes_fail_validation() {
    // a blocking and a non-blocking workload cannot share one run
    let mut builder = ServiceBuilder::new();
    builder.http().unwrap();
    builder.script().unwrap();
    let service = builder.build(definitions_with(&["http", "script"]), Env::default());

    assert!(!service.has_equal_execution_modes());
    assert!(matches!(
        service.validate_definitions(),
        Err(Error::UnsupportedServicesCombination)
    ));
    assert!(service.begin_run().is_err());
}

#[test]
fn test_empty_registry_fails_validation() {
    let builder = ServiceBuilder::new();
    let service = builder.build(definitions_with(&["http"]), Env::default());
    assert!(matches!(
        service.validate_definitions(),
        Err(Error::EmptyServiceFound)
    ));
}

#[test]
fn test_valid_configuration_enters_run_phase() {
    let mut builder = ServiceBuilder::new();
    builder.http().unwrap();
    builder.grpc().unwrap();
    let service = builder.build(definitions_with(&["http", "grpc"]), Env::default());

    assert!(service.validate_definitions().is_ok());
    let state = service.begin_run().unwrap();
    assert!(state.must_await_interrupt());
    assert!(state.overall_result().is_ok());
}

#[test]
fn test_duplicate_registration_is_refused() {
    let mut builder = ServiceBuilder::new();
    builder.http().unwrap();
    assert!(builder.http().is_err());
    assert!(builder.custom("cronjob", ServiceExecutionMode::NonBlock).is_ok());
    assert!(builder.custom("cronjob", ServiceExecutionMode::NonBlock).is_err());
}

#[test]
fn test_first_error_wins() {
    // three workloads; the second fails first with E1, the third later
    // with E2: the overall result is E1, and stop and finish run exactly
    // once for each workload
    let mut builder = ServiceBuilder::new();
    builder.http().unwrap();
    builder.grpc().unwrap();
    builder.native().unwrap();
    let service = builder.build(definitions_with(&["http", "grpc", "native"]), Env::default());
    let mut state = service.begin_run().unwrap();

    let e1 = sample_error("E1");
    let e2 = sample_error("E2");
    let e1_payload = to_wire(&e1);

    let first = state.on_event(RunEvent::TaskFailed(e1));
    assert_eq!(first, RunAction::BeginShutdown);
    let second = state.on_event(RunEvent::TaskFailed(e2));
    assert_eq!(second, RunAction::KeepWaiting);

    // the common shutdown sequence: stop each workload in order,
    // broadcast once, join each task, finish each workload
    let mut driver = ShutdownDriver::new(3, 0);
    let mut steps = Vec::new();
    while let Some(step) = driver.next() {
        steps.push(step);
    }
    assert_eq!(
        steps,
        vec![
            ShutdownStep::Stop(0),
            ShutdownStep::Stop(1),
            ShutdownStep::Stop(2),
            ShutdownStep::Broadcast,
            ShutdownStep::Join(0),
            ShutdownStep::Join(1),
            ShutdownStep::Join(2),
            ShutdownStep::Finish(0),
            ShutdownStep::Finish(1),
            ShutdownStep::Finish(2),
        ]
    );

    let result = state.overall_result();
    assert!(result.is_err());
    assert_eq!(to_wire(&result.err().unwrap()), e1_payload);
}

#[test]
fn test_blocking_run_outlives_completed_tasks() {
    // one blocking request server and one blocking background worker
    // whose run returns immediately: the supervisor keeps waiting until
    // an interrupt or a sibling failure, never because a task completed
    let mut builder = ServiceBuilder::new();
    builder.http().unwrap();
    builder.native().unwrap();
    let service = builder.build(definitions_with(&["http", "native"]), Env::default());
    let mut state = service.begin_run().unwrap();

    assert!(state.must_await_interrupt());
    assert_eq!(state.on_event(RunEvent::TaskCompleted), RunAction::KeepWaiting);
    assert_eq!(state.on_event(RunEvent::TaskCompleted), RunAction::KeepWaiting);
    assert_eq!(state.on_event(RunEvent::Interrupted), RunAction::BeginShutdown);
    assert!(state.overall_result().is_ok());
}

#[test]
fn test_non_blocking_run_finishes_without_interrupt() {
    let mut builder = ServiceBuilder::new();
    builder.script().unwrap();
    let service = builder.build(definitions_with(&["script"]), Env::default());
    let state = service.begin_run().unwrap();
    assert!(!state.must_await_interrupt());
}

#[test]
fn test_get_server_by_kind() {
    let mut builder = ServiceBuilder::new();
    builder.http().unwrap();
    builder.grpc().unwrap();
    let service = builder.build(definitions_with(&["http", "grpc"]), Env::default());
    assert_eq!(service.get_server(&mikros::definition::ServiceKind::Http).unwrap(), 0);
    assert_eq!(service.get_server(&mikros::definition::ServiceKind::Grpc).unwrap(), 1);
    assert!(service.get_server(&mikros::definition::ServiceKind::Native).is_err());
}

#[test]
fn test_startup_schedule_alternates() {
    // each workload is initialized and then started before the next one
    let mut driver = StartupDriver::new(2);
    let mut steps = Vec::new();
    while let Some(step) = driver.next(false) {
        steps.push(step);
    }
    assert_eq!(
        steps,
        vec![
            StartupStep::InitWorkload(0),
            StartupStep::StartWorkload(0),
            StartupStep::InitWorkload(1),
            StartupStep::StartWorkload(1),
        ]
    );
}

#[test]
fn test_startup_halts_on_first_failure() {
    let mut driver = StartupDriver::new(3);
    assert_eq!(driver.next(false), Some(StartupStep::InitWorkload(0)));
    assert_eq!(driver.next(false), Some(StartupStep::StartWorkload(0)));
    // the start hook failed: the startup halts and never resumes
    assert_eq!(driver.next(true), None);
    assert_eq!(driver.next(false), None);
}

#[test]
fn test_shutdown_schedule_with_features() {
    let mut driver = ShutdownDriver::new(1, 2);
    let mut steps = Vec::new();
    while let Some(step) = driver.next() {
        steps.push(step);
    }
    assert_eq!(
        steps,
        vec![
            ShutdownStep::Stop(0),
            ShutdownStep::Broadcast,
            ShutdownStep::Join(0),
            ShutdownStep::Finish(0),
            ShutdownStep::Cleanup(0),
            ShutdownStep::Cleanup(1),
        ]
    );
    assert!(driver.next().is_none());
}
