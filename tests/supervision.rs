use std::time::Duration;
use task_manager::core_allocator::{CoreAffinityConfig, CoreAllocator};
use task_manager::error::{ShutdownError, TaskError, TaskErrorKind};
use task_manager::execution::{
    Execution, ExecutionAction, ExecutionEvent, ExecutionPhase, MainOutcome,
};
use task_manager::task_manager::{
    pin_decision, run_result, PinDecision, Registrations, RunEnd, TaskManagerConfig,
};

fn config(shutdown_on_error: bool) -> TaskManagerConfig {
    TaskManagerConfig {
        shutdown_timeout: Duration::from_secs(5),
        catch_signals: false,
        shutdown_on_error,
        validate_core_allocation: true,
    }
}

fn names(plan: &[task_manager::task_manager::Launch]) -> Vec<String> {
    plan.iter().map(|l| l.name.clone()).collect()
}

#[test]
fn default_config_values() {
    let c = TaskManagerConfig::default();
    assert_eq!(c.shutdown_timeout, Duration::from_secs(30));
    assert!(c.catch_signals && c.shutdown_on_error && c.validate_core_allocation);
}

#[test]
fn launches_list_singles_then_group_instances() {
    let mut r = Registrations::new();
    r.register("api", CoreAffinityConfig::Fixed(1));
    r.register_group("worker", 3, CoreAffinityConfig::Auto);
    r.register("metrics", CoreAffinityConfig::Unpinned);
    r.register_group("empty", 0, CoreAffinityConfig::Unpinned);
    let launches = r.launches();
    assert_eq!(
        names(&launches),
        vec!["api", "metrics", "worker-0", "worker-1", "worker-2"]
    );
    assert_eq!(launches[0].instance_index, None);
    assert_eq!(launches[1].affinity, CoreAffinityConfig::Unpinned);
    assert_eq!(launches[3].instance_index, Some(1));
    assert_eq!(launches[4].affinity, CoreAffinityConfig::Auto);
}

#[test]
fn scenario_shared_fixed_core_is_only_a_warning() {
    let mut r = Registrations::new();
    r.register("first", CoreAffinityConfig::Fixed(2));
    r.register("second", CoreAffinityConfig::Fixed(2));
    let plan = r
        .plan(&config(true), CoreAllocator::from_cores(vec![0, 1, 2, 3]))
        .expect("a shared core does not stop the run");
    assert_eq!(names(&plan.launches), vec!["first", "second"]);
    let allocator = plan.allocator.expect("allocation was checked");
    assert_eq!(
        allocator.get_conflicts(),
        vec![(2, vec!["first".to_string(), "second".to_string()])]
    );
    assert!(allocator.validate().is_err());
}

#[test]
fn scenario_unavailable_fixed_core_aborts_before_start() {
    let mut r = Registrations::new();
    r.register("ok", CoreAffinityConfig::Fixed(0));
    r.register("bad", CoreAffinityConfig::Fixed(99));
    let err = r
        .plan(&config(true), CoreAllocator::from_cores(vec![0, 1, 2, 3]))
        .err()
        .expect("the run must not start");
    match err {
        ShutdownError::InvalidCoreAllocation { message } => {
            assert!(message.contains("bad") && message.contains("99"));
        }
        other => panic!("unexpected {:?}", other),
    }
}

#[test]
fn unchecked_allocation_starts_everything() {
    let mut r = Registrations::new();
    r.register("bad", CoreAffinityConfig::Fixed(99));
    let mut c = config(true);
    c.validate_core_allocation = false;
    let plan = r
        .plan(&c, CoreAllocator::from_cores(vec![0]))
        .expect("nothing is checked");
    assert_eq!(names(&plan.launches), vec!["bad"]);
    assert!(plan.allocator.is_none());
}

#[test]
fn validation_reports_the_first_failing_request() {
    let mut r = Registrations::new();
    r.register("solo", CoreAffinityConfig::Auto);
    r.register_group("grp", 2, CoreAffinityConfig::Range { start: 8, end: 9 });
    let err = r
        .validate_allocations(CoreAllocator::from_cores(vec![0, 1]))
        .err()
        .unwrap();
    match err {
        ShutdownError::InvalidCoreAllocation { message } => assert_eq!(
            message,
            "Auto affinity not supported for single instance task 'solo'. Use Fixed or Range instead."
        ),
        other => panic!("unexpected {:?}", other),
    }
}

#[test]
fn validation_assigns_group_instances() {
    let mut r = Registrations::new();
    r.register_group("w", 4, CoreAffinityConfig::Range { start: 1, end: 2 });
    let a = r
        .validate_allocations(CoreAllocator::from_cores(vec![0, 1, 2, 3]))
        .unwrap();
    assert_eq!(
        a.get_conflicts(),
        vec![
            (1, vec!["w-0".to_string(), "w-2".to_string()]),
            (2, vec!["w-1".to_string(), "w-3".to_string()]),
        ]
    );
}

#[test]
fn pin_decisions() {
    let cores = vec![0, 1, 2, 3];
    assert_eq!(pin_decision(&cores, &CoreAffinityConfig::Unpinned, None), PinDecision::Leave);
    assert_eq!(pin_decision(&cores, &CoreAffinityConfig::Fixed(2), None), PinDecision::Pin(2));
    assert_eq!(pin_decision(&cores, &CoreAffinityConfig::Fixed(9), None), PinDecision::Unservable);
    let range = CoreAffinityConfig::Range { start: 1, end: 2 };
    assert_eq!(pin_decision(&cores, &range, Some(3)), PinDecision::Pin(2));
    assert_eq!(pin_decision(&cores, &range, None), PinDecision::Pin(1));
    assert_eq!(
        pin_decision(&cores, &CoreAffinityConfig::Range { start: 7, end: 9 }, Some(0)),
        PinDecision::Unservable
    );
    assert_eq!(pin_decision(&cores, &CoreAffinityConfig::Auto, Some(6)), PinDecision::Pin(2));
    assert_eq!(pin_decision(&cores, &CoreAffinityConfig::Auto, None), PinDecision::Unservable);
    assert_eq!(pin_decision(&vec![], &CoreAffinityConfig::Fixed(0), None), PinDecision::Leave);
}

fn run_through(
    exec: &mut Execution,
    outcome: MainOutcome,
    cleanup: Result<(), TaskError>,
) -> Result<(), TaskError> {
    assert!(matches!(exec.step(ExecutionEvent::Pinned), ExecutionAction::RunMain));
    assert!(matches!(
        exec.step(ExecutionEvent::MainReturned(outcome)),
        ExecutionAction::RunCleanup
    ));
    assert_eq!(exec.phase(), ExecutionPhase::CleaningUp);
    match exec.step(ExecutionEvent::CleanupReturned(cleanup)) {
        ExecutionAction::Report(r) => r,
        other => panic!("unexpected {:?}", other),
    }
}

#[test]
fn scenario_error_swallowed_without_shutdown_on_error() {
    let mut exec = Execution::new("flaky", false);
    let r = run_through(
        &mut exec,
        MainOutcome::Failed(TaskError::execution("flaky", "boom")),
        Ok(()),
    );
    assert!(r.is_ok());
    assert_eq!(exec.phase(), ExecutionPhase::Finished);
    assert!(run_result(&config(false), RunEnd::Finished).is_ok());
}

#[test]
fn scenario_error_propagated_with_shutdown_on_error() {
    let mut failing = Execution::new("flaky", true);
    let r = run_through(
        &mut failing,
        MainOutcome::Failed(TaskError::execution("flaky", "boom")),
        Ok(()),
    );
    let err = r.unwrap_err();
    assert_eq!(err.task_name, "flaky");
    assert!(matches!(err.kind, TaskErrorKind::Execution { .. }));
    // A cancelled sibling still runs its cleanup hook and finishes cleanly.
    let mut sibling = Execution::new("steady", true);
    assert!(run_through(&mut sibling, MainOutcome::Completed, Ok(())).is_ok());
    let result = run_result(&config(true), RunEnd::Failed(vec![err]));
    match result {
        Err(ShutdownError::SubsystemsFailed { failures }) => {
            assert_eq!(failures.len(), 1);
            assert_eq!(failures[0].task_name, "flaky");
            assert!(matches!(
                &failures[0].kind,
                TaskErrorKind::Execution { source } if source == "task 'flaky' failed: execution error"
            ));
        }
        other => panic!("unexpected {:?}", other),
    }
}

#[test]
fn scenario_deadline_reports_the_configured_timeout() {
    let result = run_result(&config(true), RunEnd::DeadlineExceeded);
    match result {
        Err(ShutdownError::Timeout { timeout }) => assert_eq!(timeout, Duration::from_secs(5)),
        other => panic!("unexpected {:?}", other),
    }
}

#[test]
fn panic_is_reported_and_cleanup_still_runs() {
    for propagate in [false, true] {
        let mut exec = Execution::new("crashy", propagate);
        let r = run_through(
            &mut exec,
            MainOutcome::Panicked("index out of bounds".to_string()),
            Err(TaskError::shutdown("crashy", "cleanup failed")),
        );
        let err = r.unwrap_err();
        assert_eq!(err.task_name, "crashy");
        assert!(matches!(
            err.kind,
            TaskErrorKind::Panic { ref message } if message == "index out of bounds"
        ));
    }
}

#[test]
fn out_of_order_events_are_ignored() {
    let mut exec = Execution::new("w", true);
    assert!(matches!(
        exec.step(ExecutionEvent::CleanupReturned(Ok(()))),
        ExecutionAction::Ignore
    ));
    assert!(matches!(
        exec.step(ExecutionEvent::MainReturned(MainOutcome::Completed)),
        ExecutionAction::Ignore
    ));
    assert_eq!(exec.phase(), ExecutionPhase::Starting);
    assert!(matches!(exec.step(ExecutionEvent::Pinned), ExecutionAction::RunMain));
    assert!(matches!(exec.step(ExecutionEvent::Pinned), ExecutionAction::Ignore));
    assert!(matches!(
        exec.step(ExecutionEvent::MainReturned(MainOutcome::Completed)),
        ExecutionAction::RunCleanup
    ));
    // The main routine cannot return twice: no second cleanup is asked for.
    assert!(matches!(
        exec.step(ExecutionEvent::MainReturned(MainOutcome::Completed)),
        ExecutionAction::Ignore
    ));
    assert!(matches!(
        exec.step(ExecutionEvent::CleanupReturned(Ok(()))),
        ExecutionAction::Report(Ok(()))
    ));
    assert!(matches!(
        exec.step(ExecutionEvent::CleanupReturned(Ok(()))),
        ExecutionAction::Ignore
    ));
    assert_eq!(exec.phase(), ExecutionPhase::Finished);
}

#[test]
fn decimal_text_of_numbers() {
    assert_eq!(task_manager::text::decimal_text(0), "0");
    assert_eq!(task_manager::text::decimal_text(907), "907");
    assert_eq!(task_manager::text::decimal_text(10), "10");
}

#[test]
fn panicking_worker_reaches_the_run_result_as_panic() {
    let mut crashy = Execution::new("crashy", true);
    let reported = run_through(&mut crashy, MainOutcome::Panicked("oops".to_string()), Ok(()));
    let mut other = Execution::new("other", true);
    let shutdown_failure = TaskError::shutdown("other", "late");
    assert!(run_through(&mut other, MainOutcome::Completed, Err(shutdown_failure)).is_ok());
    let failures = vec![
        reported.unwrap_err(),
        TaskError::new(
            "starter",
            TaskErrorKind::StartupFailed {
                message: "no port".to_string(),
            },
        ),
    ];
    match run_result(&config(true), RunEnd::Failed(failures)) {
        Err(ShutdownError::SubsystemsFailed { failures }) => {
            assert_eq!(failures.len(), 2);
            assert_eq!(failures[0].task_name, "crashy");
            assert!(matches!(
                &failures[0].kind,
                TaskErrorKind::Panic { message } if message == "oops"
            ));
            assert_eq!(failures[1].task_name, "starter");
            assert!(matches!(&failures[1].kind, TaskErrorKind::StartupFailed { .. }));
        }
        other => panic!("unexpected {:?}", other),
    }
}

#[test]
fn propagated_error_is_named_after_the_execution() {
    let mut exec = Execution::new("pool-3", true);
    let worker_error = TaskError::new(
        "pool",
        TaskErrorKind::StartupFailed {
            message: "no socket".to_string(),
        },
    );
    let err = run_through(&mut exec, MainOutcome::Failed(worker_error), Ok(())).unwrap_err();
    assert_eq!(err.task_name, "pool-3");
    match err.kind {
        TaskErrorKind::Execution { source } => {
            assert_eq!(source, "task 'pool' failed: startup failed: no socket")
        }
        other => panic!("unexpected {:?}", other),
    }
}
