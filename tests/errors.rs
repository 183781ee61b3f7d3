use std::time::Duration;
use task_manager::error::{ShutdownError, TaskError, TaskErrorKind};

#[test]
fn test_task_error_display() {
    let err = TaskError::execution(
        "test_task",
        std::io::Error::from(std::io::ErrorKind::NotFound),
    );
    let display = err.to_string();
    assert!(display.contains("test_task"));
    assert!(display.contains("failed"));
}

#[test]
fn test_task_error_kinds() {
    let err = TaskError::panic("panic_task", "unexpected panic");
    assert!(matches!(err.kind, TaskErrorKind::Panic { .. }));
    assert_eq!(err.task_name, "panic_task");

    let err = TaskError::shutdown(
        "shutdown_task",
        std::io::Error::from(std::io::ErrorKind::TimedOut),
    );
    assert!(matches!(err.kind, TaskErrorKind::Shutdown { .. }));
}

#[test]
fn test_error_source_chain() {
    let io_err = std::io::Error::new(std::io::ErrorKind::PermissionDenied, "access denied");
    let task_err = TaskError::execution("file_reader", io_err);

    assert!(task_err.source().is_some());
    let kind_err = task_err.source().unwrap();
    assert!(kind_err.source().is_some());
}

#[test]
fn test_error_extensibility() {
    let err = TaskError::new(
        "test",
        TaskErrorKind::Panic {
            message: "test".into(),
        },
    );

    let _display = err.to_string();
}

#[test]
fn task_error_texts_are_exact() {
    let err = TaskError::execution("reader", "disk gone");
    assert_eq!(err.to_string(), "task 'reader' failed: execution error");
    match &err.kind {
        TaskErrorKind::Execution { source } => assert_eq!(source, "disk gone"),
        other => panic!("unexpected kind {:?}", other),
    }
    let err = TaskError::shutdown("writer", "flush failed");
    assert_eq!(err.to_string(), "task 'writer' failed: shutdown handler failed");
    let err = TaskError::panic("p", "boom");
    assert_eq!(err.to_string(), "task 'p' failed: task panicked: boom");
    let err = TaskError::new(
        "s",
        TaskErrorKind::StartupFailed {
            message: "no port".to_string(),
        },
    );
    assert_eq!(err.to_string(), "task 's' failed: startup failed: no port");
    assert!(err.kind.source().is_none());
}

#[test]
fn task_error_from_kind_has_unknown_name() {
    let err = TaskError::from(TaskErrorKind::Panic {
        message: "x".to_string(),
    });
    assert_eq!(err.task_name, "unknown");
    assert!(matches!(err.kind, TaskErrorKind::Panic { .. }));
}

#[test]
fn shutdown_error_constructors() {
    let t = ShutdownError::timeout(Duration::from_millis(1500));
    assert!(matches!(t, ShutdownError::Timeout { timeout } if timeout == Duration::from_millis(1500)));
    let f = ShutdownError::subsystems_failed(vec![TaskError::panic("a", "b")]);
    match f {
        ShutdownError::SubsystemsFailed { failures } => {
            assert_eq!(failures.len(), 1);
            assert_eq!(failures[0].task_name, "a");
        }
        other => panic!("unexpected {:?}", other),
    }
    let i = ShutdownError::invalid_core_allocation("bad core".to_string());
    assert!(matches!(i, ShutdownError::InvalidCoreAllocation { ref message } if message == "bad core"));
}

#[test]
fn shutdown_error_texts() {
    assert_eq!(
        ShutdownError::timeout(Duration::from_millis(1500)).to_string(),
        "shutdown timed out after 1.5s"
    );
    assert_eq!(
        ShutdownError::timeout(Duration::from_secs(30)).to_string(),
        "shutdown timed out after 30s"
    );
    let failed = ShutdownError::subsystems_failed(vec![
        TaskError::panic("a", "b"),
        TaskError::execution("c", "d"),
    ]);
    assert_eq!(failed.to_string(), "2 subsystem(s) failed during shutdown");
    assert_eq!(
        ShutdownError::invalid_core_allocation("Core 9 missing".to_string()).to_string(),
        "invalid core allocation: Core 9 missing"
    );
}
