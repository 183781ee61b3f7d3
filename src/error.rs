//! Errors of supervised executions and of a whole supervised run.

use std::time::Duration;
use vstd::prelude::*;
use crate::text::{decimal, push_decimal};

verus! {

/// What went wrong in one execution.
#[derive(Debug)]
#[non_exhaustive]
pub enum TaskErrorKind {
    /// The worker's main routine failed; `source` is the message of its error.
    Execution { source: String },
    /// The worker's cleanup hook failed; `source` is the message of its error.
    Shutdown { source: String },
    /// The worker's main routine panicked.
    Panic { message: String },
    /// The worker could not start.
    StartupFailed { message: String },
}

pub open spec fn kind_text(kind: TaskErrorKind) -> Seq<char> {
    match kind {
        TaskErrorKind::Execution { .. } => "execution error"@,
        TaskErrorKind::Shutdown { .. } => "shutdown handler failed"@,
        TaskErrorKind::Panic { message } => "task panicked: "@ + message@,
        TaskErrorKind::StartupFailed { message } => "startup failed: "@ + message@,
    }
}

impl TaskErrorKind {
    /// The message of the error that caused this one, where there is one.
    pub fn source(&self) -> (r: Option<&String>)
        ensures
            match self {
                TaskErrorKind::Execution { source } => r == Some(source),
                TaskErrorKind::Shutdown { source } => r == Some(source),
                _ => r is None,
            },
    {
        match self {
            TaskErrorKind::Execution { source } => Some(source),
            TaskErrorKind::Shutdown { source } => Some(source),
            _ => None,
        }
    }

    /// A one-line description of this kind of failure.
    pub fn to_string(&self) -> (r: String)
        ensures
            r@ == kind_text(*self),
    {
        match self {
            TaskErrorKind::Execution { .. } => String::from_str("execution error"),
            TaskErrorKind::Shutdown { .. } => String::from_str("shutdown handler failed"),
            TaskErrorKind::Panic { message } => {
                let mut r = String::from_str("task panicked: ");
                r.append(message.as_str());
                r
            },
            TaskErrorKind::StartupFailed { message } => {
                let mut r = String::from_str("startup failed: ");
                r.append(message.as_str());
                r
            },
        }
    }
}

/// The failure of one execution, with the name of its worker.
#[derive(Debug)]
#[non_exhaustive]
pub struct TaskError {
    pub task_name: String,
    pub kind: TaskErrorKind,
}

pub open spec fn task_error_text(e: TaskError) -> Seq<char> {
    "task '"@ + e.task_name@ + "' failed: "@ + kind_text(e.kind)
}

impl TaskError {
    pub fn new(task_name: &str, kind: TaskErrorKind) -> (r: Self)
        ensures
            r.task_name@ == task_name@,
            r.kind == kind,
    {
        TaskError { task_name: String::from_str(task_name), kind }
    }

    /// The main routine of `task_name` failed with `source`.
    pub fn execution<E: std::fmt::Display>(task_name: &str, source: E) -> (r: Self)
        ensures
            r.task_name@ == task_name@,
            match r.kind {
                TaskErrorKind::Execution { source: s } => {
                    vstd::string::to_string_from_display_ensures::<E>(&source, s)
                },
                _ => false,
            },
    {
        Self::new(task_name, TaskErrorKind::Execution { source: source.to_string() })
    }

    /// The cleanup hook of `task_name` failed with `source`.
    pub fn shutdown<E: std::fmt::Display>(task_name: &str, source: E) -> (r: Self)
        ensures
            r.task_name@ == task_name@,
            match r.kind {
                TaskErrorKind::Shutdown { source: s } => {
                    vstd::string::to_string_from_display_ensures::<E>(&source, s)
                },
                _ => false,
            },
    {
        Self::new(task_name, TaskErrorKind::Shutdown { source: source.to_string() })
    }

    /// The main routine of `task_name` panicked with `message`.
    pub fn panic(task_name: &str, message: &str) -> (r: Self)
        ensures
            r.task_name@ == task_name@,
            match r.kind {
                TaskErrorKind::Panic { message: m } => m@ == message@,
                _ => false,
            },
    {
        Self::new(task_name, TaskErrorKind::Panic { message: String::from_str(message) })
    }

    /// The kind of failure, which this error wraps.
    pub fn source(&self) -> (r: Option<&TaskErrorKind>)
        ensures
            r == Some(&self.kind),
    {
        Some(&self.kind)
    }

    /// `task '<name>' failed: <kind>`.
    pub fn to_string(&self) -> (r: String)
        ensures
            r@ == task_error_text(*self),
    {
        let mut r = String::from_str("task '");
        r.append(self.task_name.as_str());
        r.append("' failed: ");
        let k = self.kind.to_string();
        r.append(k.as_str());
        r
    }
}

impl From<TaskErrorKind> for TaskError {
    /// A failure whose worker is not known.
    fn from(kind: TaskErrorKind) -> (r: Self)
        ensures
            r.task_name@ == "unknown"@,
            r.kind == kind,
    {
        TaskError { task_name: String::from_str("unknown"), kind }
    }
}

impl vstd::std_specs::convert::FromSpecImpl<TaskErrorKind> for TaskError {
    open spec fn obeys_from_spec() -> bool {
        false
    }

    open spec fn from_spec(kind: TaskErrorKind) -> TaskError {
        arbitrary()
    }
}

/// Why a supervised run did not end cleanly.
#[derive(Debug)]
#[non_exhaustive]
pub enum ShutdownError {
    /// Some execution was still running when the shutdown deadline passed.
    Timeout { timeout: Duration },
    /// Executions reported failures that were propagated.
    SubsystemsFailed { failures: Vec<TaskError> },
    /// The pre-flight core allocation found a request it cannot serve.
    InvalidCoreAllocation { message: String },
}

impl ShutdownError {
    pub fn timeout(timeout: Duration) -> (r: Self)
        ensures
            r == (ShutdownError::Timeout { timeout }),
    {
        ShutdownError::Timeout { timeout }
    }

    pub fn subsystems_failed(failures: Vec<TaskError>) -> (r: Self)
        ensures
            r == (ShutdownError::SubsystemsFailed { failures }),
    {
        ShutdownError::SubsystemsFailed { failures }
    }

    pub fn invalid_core_allocation(message: String) -> (r: Self)
        ensures
            r == (ShutdownError::InvalidCoreAllocation { message }),
    {
        ShutdownError::InvalidCoreAllocation { message }
    }
}

/// Relies on the `Debug` format of std::time::Duration, which renders a
/// duration with its unit (`1.5s`, `200ms`). Nothing is stated of the text.
#[verifier::external_body]
fn duration_debug_text(d: &Duration) -> (r: String) {
    format!("{:?}", d)
}

/// The text of a shutdown error, except for the duration of a timeout,
/// which is rendered by the `Debug` format of `Duration` after this prefix.
pub open spec fn shutdown_error_text(e: ShutdownError, timeout_text: Seq<char>) -> Seq<char> {
    match e {
        ShutdownError::Timeout { .. } => "shutdown timed out after "@ + timeout_text,
        ShutdownError::SubsystemsFailed { failures } => decimal(failures@.len())
            + " subsystem(s) failed during shutdown"@,
        ShutdownError::InvalidCoreAllocation { message } => "invalid core allocation: "@
            + message@,
    }
}

/// Length of the text a timeout's message starts with.
pub const TIMEOUT_PREFIX_LEN: usize = 25;

impl ShutdownError {
    /// A one-line description of the error. For a timeout, the text after
    /// the fixed prefix is the duration in `Duration`'s `Debug` format.
    pub fn to_string(&self) -> (r: String)
        ensures
            *self is Timeout ==> r@.len() >= TIMEOUT_PREFIX_LEN,
            r@ == shutdown_error_text(*self, r@.skip(TIMEOUT_PREFIX_LEN as int)),
    {
        match self {
            ShutdownError::Timeout { timeout } => {
                let mut text = String::from_str("shutdown timed out after ");
                let t = duration_debug_text(timeout);
                text.append(t.as_str());
                proof {
                    reveal_strlit("shutdown timed out after ");
                    assert(text@.skip(TIMEOUT_PREFIX_LEN as int) =~= t@);
                }
                text
            },
            ShutdownError::SubsystemsFailed { failures } => {
                let mut text = String::new();
                push_decimal(&mut text, failures.len());
                text.append(" subsystem(s) failed during shutdown");
                assert(text@ =~= shutdown_error_text(*self, Seq::empty()));
                text
            },
            ShutdownError::InvalidCoreAllocation { message } => {
                let mut text = String::from_str("invalid core allocation: ");
                text.append(message.as_str());
                text
            },
        }
    }
}

pub type TaskResult<T> = Result<T, TaskError>;

pub type ShutdownResult<T> = Result<T, ShutdownError>;

} // verus!
