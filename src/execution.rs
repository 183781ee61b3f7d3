//! The life of one supervised execution: pin, run the main routine, run the
//! cleanup hook, report. The runtime performs each action this machine asks
//! for and hands back what happened; the machine decides what comes next.

use vstd::prelude::*;
use crate::error::{task_error_text, TaskError, TaskErrorKind, TaskResult};

verus! {

/// Where an execution stands.
#[derive(Debug, Clone, Copy, PartialEq, Eq, Structural)]
pub enum ExecutionPhase {
    /// Waiting for the pinning attempt.
    Starting,
    /// The main routine is running.
    Running,
    /// The main routine has returned; the cleanup hook is running.
    CleaningUp,
    /// The cleanup hook has returned and the outcome was reported.
    Finished,
}

/// How the main routine of a worker ended.
#[derive(Debug)]
pub enum MainOutcome {
    /// It returned success.
    Completed,
    /// It returned an error.
    Failed(TaskError),
    /// It panicked, with this message.
    Panicked(String),
}

/// What the runtime reports to an execution.
#[derive(Debug)]
pub enum ExecutionEvent {
    /// The pinning attempt is over, whatever came of it.
    Pinned,
    /// The main routine returned or panicked.
    MainReturned(MainOutcome),
    /// The cleanup hook returned; its failure is only ever logged.
    CleanupReturned(TaskResult<()>),
}

/// What the runtime is to do next for an execution.
#[derive(Debug)]
pub enum ExecutionAction {
    /// Run the worker's main routine.
    RunMain,
    /// Run the worker's cleanup hook.
    RunCleanup,
    /// The execution is over; hand this result to the supervisor.
    Report(TaskResult<()>),
    /// The event does not fit the execution's phase; nothing to do.
    Ignore,
}

/// The kind of an action, as the contracts see it.
pub enum ActionKind {
    RunMain,
    RunCleanup,
    Report,
    Ignore,
}

pub open spec fn action_kind(a: ExecutionAction) -> ActionKind {
    match a {
        ExecutionAction::RunMain => ActionKind::RunMain,
        ExecutionAction::RunCleanup => ActionKind::RunCleanup,
        ExecutionAction::Report(_) => ActionKind::Report,
        ExecutionAction::Ignore => ActionKind::Ignore,
    }
}

/// The event is the one the phase waits for.
pub open spec fn accepts(p: ExecutionPhase, e: ExecutionEvent) -> bool {
    match e {
        ExecutionEvent::Pinned => p == ExecutionPhase::Starting,
        ExecutionEvent::MainReturned(_) => p == ExecutionPhase::Running,
        ExecutionEvent::CleanupReturned(_) => p == ExecutionPhase::CleaningUp,
    }
}

pub open spec fn next_phase(p: ExecutionPhase, e: ExecutionEvent) -> ExecutionPhase {
    if accepts(p, e) {
        match p {
            ExecutionPhase::Starting => ExecutionPhase::Running,
            ExecutionPhase::Running => ExecutionPhase::CleaningUp,
            _ => ExecutionPhase::Finished,
        }
    } else {
        p
    }
}

pub open spec fn step_kind(p: ExecutionPhase, e: ExecutionEvent) -> ActionKind {
    if accepts(p, e) {
        match p {
            ExecutionPhase::Starting => ActionKind::RunMain,
            ExecutionPhase::Running => ActionKind::RunCleanup,
            _ => ActionKind::Report,
        }
    } else {
        ActionKind::Ignore
    }
}

/// `r` is what an execution named `name` reports after its main routine
/// ended with `outcome`. An error counts only where failures are propagated,
/// and is reported under the execution's own name as an `Execution` error
/// whose source is the worker's error text; a panic is always reported, as a
/// `Panic` error.
pub open spec fn reported(
    name: Seq<char>,
    shutdown_on_error: bool,
    outcome: MainOutcome,
    r: TaskResult<()>,
) -> bool {
    match outcome {
        MainOutcome::Completed => r is Ok,
        MainOutcome::Failed(e) => if shutdown_on_error {
            match r {
                Err(te) => te.task_name@ == name && match te.kind {
                    TaskErrorKind::Execution { source } => source@ == task_error_text(e),
                    _ => false,
                },
                Ok(_) => false,
            }
        } else {
            r is Ok
        },
        MainOutcome::Panicked(m) => match r {
            Err(te) => te.task_name@ == name && match te.kind {
                TaskErrorKind::Panic { message } => message@ == m@,
                _ => false,
            },
            Ok(_) => false,
        },
    }
}

#[derive(Debug)]
enum Stage {
    Starting,
    Running,
    CleaningUp(MainOutcome),
    Finished,
}

/// The state of one execution.
#[derive(Debug)]
pub struct Execution {
    name: String,
    shutdown_on_error: bool,
    stage: Stage,
}

/// An execution as the contracts see it.
pub struct ExecutionView {
    pub name: Seq<char>,
    pub shutdown_on_error: bool,
    pub phase: ExecutionPhase,
    /// How the main routine ended, once it has, until it is reported.
    pub outcome: Option<MainOutcome>,
}

impl View for Execution {
    type V = ExecutionView;

    closed spec fn view(&self) -> ExecutionView {
        ExecutionView {
            name: self.name@,
            shutdown_on_error: self.shutdown_on_error,
            phase: match self.stage {
                Stage::Starting => ExecutionPhase::Starting,
                Stage::Running => ExecutionPhase::Running,
                Stage::CleaningUp(_) => ExecutionPhase::CleaningUp,
                Stage::Finished => ExecutionPhase::Finished,
            },
            outcome: match self.stage {
                Stage::CleaningUp(o) => Some(o),
                _ => None,
            },
        }
    }
}

impl Execution {
    /// A new execution of the worker `name`, waiting for its pinning attempt.
    pub fn new(name: &str, shutdown_on_error: bool) -> (r: Self)
        ensures
            r@.name == name@,
            r@.shutdown_on_error == shutdown_on_error,
            r@.phase == ExecutionPhase::Starting,
    {
        Execution { name: String::from_str(name), shutdown_on_error, stage: Stage::Starting }
    }

    pub fn phase(&self) -> (r: ExecutionPhase)
        ensures
            r == self@.phase,
    {
        match self.stage {
            Stage::Starting => ExecutionPhase::Starting,
            Stage::Running => ExecutionPhase::Running,
            Stage::CleaningUp(_) => ExecutionPhase::CleaningUp,
            Stage::Finished => ExecutionPhase::Finished,
        }
    }

    fn outcome_result(&self, outcome: MainOutcome) -> (r: TaskResult<()>)
        ensures
            reported(self@.name, self@.shutdown_on_error, outcome, r),
    {
        match outcome {
            MainOutcome::Completed => Ok(()),
            MainOutcome::Failed(e) => if self.shutdown_on_error {
                let source = e.to_string();
                Err(TaskError::new(self.name.as_str(), TaskErrorKind::Execution { source }))
            } else {
                Ok(())
            },
            MainOutcome::Panicked(m) => Err(TaskError::panic(self.name.as_str(), m.as_str())),
        }
    }

    /// Takes in what happened and says what the runtime does next.
    pub fn step(&mut self, event: ExecutionEvent) -> (a: ExecutionAction)
        ensures
            final(self)@.name == old(self)@.name,
            final(self)@.shutdown_on_error == old(self)@.shutdown_on_error,
            final(self)@.phase == next_phase(old(self)@.phase, event),
            action_kind(a) == step_kind(old(self)@.phase, event),
            match event {
                ExecutionEvent::MainReturned(o) => old(self)@.phase == ExecutionPhase::Running
                    ==> final(self)@.outcome == Some(o),
                _ => true,
            },
            match a {
                ExecutionAction::Report(r) => reported(
                    old(self)@.name,
                    old(self)@.shutdown_on_error,
                    old(self)@.outcome->0,
                    r,
                ),
                _ => true,
            },
    {
        let mut stage = Stage::Finished;
        std::mem::swap(&mut stage, &mut self.stage);
        match stage {
            Stage::Starting => match event {
                ExecutionEvent::Pinned => {
                    self.stage = Stage::Running;
                    ExecutionAction::RunMain
                },
                _ => {
                    self.stage = Stage::Starting;
                    ExecutionAction::Ignore
                },
            },
            Stage::Running => match event {
                ExecutionEvent::MainReturned(o) => {
                    self.stage = Stage::CleaningUp(o);
                    ExecutionAction::RunCleanup
                },
                _ => {
                    self.stage = Stage::Running;
                    ExecutionAction::Ignore
                },
            },
            Stage::CleaningUp(o) => match event {
                ExecutionEvent::CleanupReturned(_) => {
                    let r = self.outcome_result(o);
                    ExecutionAction::Report(r)
                },
                _ => {
                    self.stage = Stage::CleaningUp(o);
                    ExecutionAction::Ignore
                },
            },
            Stage::Finished => ExecutionAction::Ignore,
        }
    }
}

/// The phase after the events `events`, from a new execution.
pub open spec fn phase_after(events: Seq<ExecutionEvent>) -> ExecutionPhase
    decreases events.len(),
{
    if events.len() == 0 {
        ExecutionPhase::Starting
    } else {
        next_phase(phase_after(events.drop_last()), events.last())
    }
}

/// The kinds of the actions answering the events `events`, one per event,
/// from a new execution.
pub open spec fn actions_after(events: Seq<ExecutionEvent>) -> Seq<ActionKind>
    decreases events.len(),
{
    if events.len() == 0 {
        Seq::empty()
    } else {
        actions_after(events.drop_last()).push(
            step_kind(phase_after(events.drop_last()), events.last()),
        )
    }
}

/// How often `kind` occurs in `ks`.
pub open spec fn count_of(ks: Seq<ActionKind>, kind: ActionKind) -> nat
    decreases ks.len(),
{
    if ks.len() == 0 {
        0
    } else {
        count_of(ks.drop_last(), kind) + if ks.last() == kind {
            1nat
        } else {
            0nat
        }
    }
}

/// The main routine has returned (or panicked) in phase `p`.
pub open spec fn main_returned(p: ExecutionPhase) -> bool {
    p == ExecutionPhase::CleaningUp || p == ExecutionPhase::Finished
}

/// Whatever the runtime reports, and in whatever order: the cleanup hook is
/// asked for exactly once if the main routine has returned, by any outcome,
/// and never otherwise; it is asked for only in answer to the main routine's
/// return, after the main routine was started; and the result is reported
/// only after the cleanup hook was asked for.
pub proof fn lemma_cleanup_once_after_main(events: Seq<ExecutionEvent>)
    ensures
        actions_after(events).len() == events.len(),
        count_of(actions_after(events), ActionKind::RunCleanup) == if main_returned(
            phase_after(events),
        ) {
            1nat
        } else {
            0nat
        },
        count_of(actions_after(events), ActionKind::RunMain) <= 1,
        forall|k: int|
            0 <= k < events.len() && #[trigger] actions_after(events)[k] == ActionKind::RunCleanup
                ==> {
                &&& events[k] is MainReturned
                &&& count_of(actions_after(events).subrange(0, k), ActionKind::RunMain) == 1
            },
        forall|k: int|
            0 <= k < events.len() && #[trigger] actions_after(events)[k] == ActionKind::Report
                ==> count_of(actions_after(events).subrange(0, k), ActionKind::RunCleanup) == 1,
    decreases events.len(),
{
    lemma_counts_follow_phase(events);
    if events.len() > 0 {
        let prev = events.drop_last();
        lemma_cleanup_once_after_main(prev);
        lemma_counts_follow_phase(prev);
        let ks = actions_after(events);
        let pks = actions_after(prev);
        assert forall|k: int| 0 <= k < pks.len() implies ks.subrange(0, k) == pks.subrange(0, k)
            && ks[k] == pks[k] by {
            assert(ks.subrange(0, k) =~= pks.subrange(0, k));
        }
        assert(ks.subrange(0, pks.len() as int) =~= pks);
        let n = events.len() - 1;
        assert forall|k: int|
            0 <= k < events.len() && #[trigger] ks[k] == ActionKind::RunCleanup implies {
            &&& events[k] is MainReturned
            &&& count_of(ks.subrange(0, k), ActionKind::RunMain) == 1
        } by {
            if k < n {
                assert(prev[k] == events[k]);
            }
        }
        assert forall|k: int| 0 <= k < events.len() && #[trigger] ks[k] == ActionKind::Report implies count_of(
            ks.subrange(0, k),
            ActionKind::RunCleanup,
        ) == 1 by {
            if k < n {
                assert(prev[k] == events[k]);
            }
        }
    }
}

/// The counts of started main routines and cleanup hooks follow the phase.
proof fn lemma_counts_follow_phase(events: Seq<ExecutionEvent>)
    ensures
        actions_after(events).len() == events.len(),
        count_of(actions_after(events), ActionKind::RunMain) == if phase_after(events)
            == ExecutionPhase::Starting {
            0nat
        } else {
            1nat
        },
        count_of(actions_after(events), ActionKind::RunCleanup) == if main_returned(
            phase_after(events),
        ) {
            1nat
        } else {
            0nat
        },
    decreases events.len(),
{
    if events.len() > 0 {
        let prev = events.drop_last();
        lemma_counts_follow_phase(prev);
        assert(actions_after(events).drop_last() =~= actions_after(prev));
    }
}

} // verus!
