//! What can go wrong in a run.

use vstd::prelude::*;

verus! {

/// The failures of a run. Each of them ends it.
#[derive(Debug, PartialEq, Eq)]
pub enum SimulationError {
    /// The terminal or a channel failed; the text says how.
    Io(String),
    /// A robot carries an id that has no marker.
    UnsupportedAgentId(u32),
    /// Anything else.
    Unknown,
}

/// How a program that met an error ends.
#[derive(Clone, Copy, Debug, PartialEq, Eq, Structural)]
pub enum ExitStatus {
    Success,
    Failure,
}

impl SimulationError {
    /// The status that the program reports for this error: always a failure.
    pub fn report(&self) -> (status: ExitStatus)
        ensures
            status == ExitStatus::Failure,
    {
        match self {
            SimulationError::Io(_) => ExitStatus::Failure,
            SimulationError::UnsupportedAgentId(_) => ExitStatus::Failure,
            SimulationError::Unknown => ExitStatus::Failure,
        }
    }
}

} // verus!
