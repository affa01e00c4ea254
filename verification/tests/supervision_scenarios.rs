use devwatchman::health::{HealthBackoff, ProbeFailure};
use devwatchman::state::{exit_descriptor, BackendEventPayload, TerminationInfo};
use devwatchman::supervisor::{ChildEvent, SupervisorCore};

fn new_core() -> SupervisorCore {
    SupervisorCore::new(String::from("/data/logs/backend.log"))
}

#[test]
fn healthy_startup_reaches_ready() {
    let mut core = new_core();
    assert!(matches!(core.state(), BackendEventPayload::Starting));

    let out = core.on_child_event(ChildEvent::Stdout(b"DEVWATCHMAN_PORT=5173\n".to_vec()));
    assert_eq!(out.port, Some(5173));
    assert!(!out.ended);
    assert_eq!(out.appended.as_deref(), Some("[stdout] DEVWATCHMAN_PORT=5173"));
    match core.state() {
        BackendEventPayload::PortDetected { port } => assert_eq!(port, 5173),
        other => panic!("unexpected state {:?}", other),
    }

    // The first probe reports healthy.
    core.on_ready(5173);
    match core.state() {
        BackendEventPayload::Ready { port, base_url, log_path } => {
            assert_eq!(port, 5173);
            assert_eq!(base_url, "http://127.0.0.1:5173");
            assert_eq!(log_path, "/data/logs/backend.log");
        }
        other => panic!("unexpected state {:?}", other),
    }
}

#[test]
fn port_is_handed_over_exactly_once() {
    let mut core = new_core();
    let first = core.on_child_event(ChildEvent::Stdout(b"DEVWATCHMAN_PORT=5173\n".to_vec()));
    assert_eq!(first.port, Some(5173));
    let second = core.on_child_event(ChildEvent::Stdout(b"DEVWATCHMAN_PORT=9999\n".to_vec()));
    assert_eq!(second.port, None);
    match core.state() {
        BackendEventPayload::PortDetected { port } => assert_eq!(port, 5173),
        other => panic!("unexpected state {:?}", other),
    }
}

#[test]
fn exit_before_port_becomes_error() {
    let mut core = new_core();
    let out = core.on_child_event(ChildEvent::Terminated(Some(1), None));
    assert!(out.ended);
    assert_eq!(out.appended.as_deref(), Some("[process] terminated (code=Some(1), signal=None)"));

    core.on_stream_ended_before_port();
    match core.state() {
        BackendEventPayload::Error { message, details, log_path, last_logs } => {
            assert_eq!(message, "Backend exited before reporting port");
            assert_eq!(
                details,
                "Backend process ended before printing DEVWATCHMAN_PORT=<port> on stdout.\nexit code: 1"
            );
            assert_eq!(log_path, "/data/logs/backend.log");
            assert_eq!(last_logs, "[process] terminated (code=Some(1), signal=None)");
        }
        other => panic!("unexpected state {:?}", other),
    }
}

#[test]
fn port_detection_timeout_becomes_error() {
    let mut core = new_core();
    core.on_child_event(ChildEvent::Stdout(b"warming up\n".to_vec()));
    core.on_port_detection_timeout();
    match core.state() {
        BackendEventPayload::Error { message, details, last_logs, .. } => {
            assert_eq!(message, "Backend port detection timed out");
            assert_eq!(details, "Didn't see DEVWATCHMAN_PORT=<port> on stdout within 15s.");
            assert_eq!(last_logs, "[stdout] warming up");
        }
        other => panic!("unexpected state {:?}", other),
    }
}

#[test]
fn never_healthy_becomes_error_after_deadline() {
    let mut core = new_core();
    core.on_child_event(ChildEvent::Stdout(b"DEVWATCHMAN_PORT=4000\n".to_vec()));

    let mut backoff = HealthBackoff::new();
    let mut elapsed: u64 = 0;
    while !backoff.deadline_exceeded(elapsed) {
        let sleep = backoff.on_probe_failure(ProbeFailure::Unhealthy);
        elapsed += sleep;
    }
    core.on_health_deadline_exceeded(&backoff);
    match core.state() {
        BackendEventPayload::Error { message, details, .. } => {
            assert_eq!(message, "Backend didn't become healthy within 45s (unhealthy response)");
            assert_eq!(details, "unhealthy response");
        }
        other => panic!("unexpected state {:?}", other),
    }
}

#[test]
fn exit_during_health_polling_becomes_error() {
    let mut core = new_core();
    core.on_child_event(ChildEvent::Stdout(b"DEVWATCHMAN_PORT=4000\n".to_vec()));
    core.on_child_event(ChildEvent::Terminated(None, Some(9)));

    assert!(core.termination().is_some());
    core.on_exited_during_startup();
    match core.state() {
        BackendEventPayload::Error { message, details, .. } => {
            assert_eq!(message, "Backend exited during startup (signal: 9)");
            assert_eq!(details, "signal: 9\nsignal: 9");
        }
        other => panic!("unexpected state {:?}", other),
    }
}

#[test]
fn spawn_failure_becomes_error_without_any_logs() {
    let mut core = new_core();
    core.on_spawn_failure(String::from("devwatchman-backend: no such sidecar"));
    match core.state() {
        BackendEventPayload::Error { message, details, log_path, last_logs } => {
            assert_eq!(message, "Backend spawn failed");
            assert_eq!(
                details,
                "Failed to spawn backend sidecar: devwatchman-backend: no such sidecar"
            );
            assert_eq!(log_path, "/data/logs/backend.log");
            assert_eq!(last_logs, "");
        }
        other => panic!("unexpected state {:?}", other),
    }
}

#[test]
fn stderr_and_stream_errors_are_logged_tagged() {
    let mut core = new_core();
    core.on_child_event(ChildEvent::Stderr(b"warning: slow start\n".to_vec()));
    let out = core.on_child_event(ChildEvent::StreamError(String::from("broken pipe")));
    assert_eq!(out.appended.as_deref(), Some("[error] broken pipe"));
    assert_eq!(core.last_logs_string(), "[stderr] warning: slow start\n[error] broken pipe");
}

#[test]
fn empty_lines_are_not_logged() {
    let mut core = new_core();
    core.on_child_event(ChildEvent::Stdout(b"\r\n".to_vec()));
    core.on_child_event(ChildEvent::Stderr(b"".to_vec()));
    assert_eq!(core.last_logs_string(), "");
}

#[test]
fn termination_is_recorded_once() {
    let mut core = new_core();
    core.on_child_event(ChildEvent::Terminated(Some(2), None));
    core.on_child_event(ChildEvent::Terminated(Some(7), Some(15)));
    let term = core.termination().expect("termination was recorded");
    assert_eq!(term.code, Some(2));
    assert_eq!(term.signal, None);
}

#[test]
fn exit_descriptor_forms() {
    assert_eq!(
        exit_descriptor(&TerminationInfo { code: Some(1), signal: Some(9) }),
        "exit code: 1, signal: 9"
    );
    assert_eq!(exit_descriptor(&TerminationInfo { code: Some(-3), signal: None }), "exit code: -3");
    assert_eq!(exit_descriptor(&TerminationInfo { code: None, signal: Some(11) }), "signal: 11");
    assert_eq!(exit_descriptor(&TerminationInfo { code: None, signal: None }), "exit: unknown");
    assert_eq!(
        exit_descriptor(&TerminationInfo { code: Some(i32::MIN), signal: None }),
        "exit code: -2147483648"
    );
}

#[test]
fn ready_state_never_regresses() {
    let mut core = new_core();
    core.on_child_event(ChildEvent::Stdout(b"DEVWATCHMAN_PORT=5173\n".to_vec()));
    core.on_ready(5173);

    // Later stream activity can no longer move the state.
    let out = core.on_child_event(ChildEvent::Stdout(b"DEVWATCHMAN_PORT=9999\n".to_vec()));
    assert_eq!(out.port, None);
    core.on_child_event(ChildEvent::Terminated(Some(0), None));
    match core.state() {
        BackendEventPayload::Ready { port, .. } => assert_eq!(port, 5173),
        other => panic!("unexpected state {:?}", other),
    }
}
