//! Exit codes.
use vstd::prelude::*;

verus! {

/// How a command ends.
#[derive(Clone, Copy, Debug, PartialEq, Eq, Structural)]
pub enum EnvoyExitCode {
    Success,
    Warning,
    Blocked,
    OperationalError,
    Held,
}

impl EnvoyExitCode {
    /// The number that the process exits with.
    pub open spec fn number(self) -> u8 {
        match self {
            EnvoyExitCode::Success => 0,
            EnvoyExitCode::Warning => 1,
            EnvoyExitCode::Blocked => 2,
            EnvoyExitCode::OperationalError => 3,
            EnvoyExitCode::Held => 4,
        }
    }

    pub fn code(self) -> (code: u8)
        ensures
            code == self.number(),
    {
        match self {
            EnvoyExitCode::Success => 0,
            EnvoyExitCode::Warning => 1,
            EnvoyExitCode::Blocked => 2,
            EnvoyExitCode::OperationalError => 3,
            EnvoyExitCode::Held => 4,
        }
    }
}

} // verus!
