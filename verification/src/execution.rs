//! Execution: agents as processes, and how they end.
use vstd::prelude::*;

verus! {

/// What a process reads from and writes to.
#[derive(Clone, Copy, Debug, PartialEq, Eq, Structural)]
pub enum StdioPolicy {
    Inherit,
}

/// A process to be started. Its arguments are of the kind that the system hands on.
#[derive(Debug)]
pub struct ProcessSpec<T> {
    pub executable: T,
    pub args: Vec<T>,
    pub cwd: String,
    pub env_overrides: Vec<(T, Option<T>)>,
    pub stdio: StdioPolicy,
}

/// How waiting for a process has ended.
#[derive(Clone, Copy, Debug, PartialEq, Eq, Structural)]
pub enum WaitOutcome {
    Exited(i32),
    Interrupted,
}

/// The exit code of a process: its own, or by convention that of the signal that ended it.
pub open spec fn exit_code_of(code: Option<i32>, signal: Option<i32>) -> int {
    match (code, signal) {
        (Some(code), _) => code as int,
        (None, Some(signal)) => 128 + signal,
        (None, None) => 1,
    }
}

pub fn exit_status_code(code: Option<i32>, signal: Option<i32>) -> (result: i32)
    requires
        signal matches Some(number) ==> number <= i32::MAX - 128,
    ensures
        result == exit_code_of(code, signal),
{
    match (code, signal) {
        (Some(code), _) => code,
        (None, Some(signal)) => 128 + signal,
        (None, None) => 1,
    }
}

/// What to do while a process is waited for.
#[derive(Clone, Copy, Debug, PartialEq, Eq, Structural)]
pub enum WaitStep {
    Kill,
    Finish(WaitOutcome),
    Sleep,
}

/// Decides what to do next while a process is waited for: an interrupt has it killed, even where
/// it has ended by itself just now.
pub fn wait_step(interrupted: bool, exited: Option<i32>) -> (step: WaitStep)
    ensures
        step == if interrupted {
            WaitStep::Kill
        } else {
            match exited {
                Some(code) => WaitStep::Finish(WaitOutcome::Exited(code)),
                None => WaitStep::Sleep,
            }
        },
{
    if interrupted {
        return WaitStep::Kill;
    }
    match exited {
        Some(code) => WaitStep::Finish(WaitOutcome::Exited(code)),
        None => WaitStep::Sleep,
    }
}

/// The exit code that is recorded once a process is not waited for any more.
pub open spec fn recorded_exit(outcome: WaitOutcome) -> i32 {
    match outcome {
        WaitOutcome::Exited(code) => code,
        WaitOutcome::Interrupted => 130,
    }
}

pub fn recorded_exit_code(outcome: WaitOutcome) -> (code: i32)
    ensures
        code == recorded_exit(outcome),
{
    match outcome {
        WaitOutcome::Exited(code) => code,
        WaitOutcome::Interrupted => 130,
    }
}

} // verus!
