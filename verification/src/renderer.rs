//! What every way of showing the run has in common.

use crate::error::SimulationError;
use vstd::prelude::*;

verus! {

/// Whether the run goes on after a step.
#[derive(Clone, Copy, Debug, PartialEq, Eq, Structural)]
pub enum Status {
    Finish,
    Continue,
}

/// A way of showing the run. `update` carries out one step and shows its
/// result; it says whether the run goes on. Nothing is promised of an
/// implementation: what it does is its own affair.
pub trait Renderer {
    fn update(&mut self) -> Result<Status, SimulationError>;

    fn clean(&self) {
    }
}

} // verus!
