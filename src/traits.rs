use vstd::prelude::*;

use crate::errors::SimulationError;

verus! {

/// An entity that advances by one simulation step.
///
/// For a cell a step regenerates its resource; for an agent it metabolizes;
/// for the world it runs one complete tick.
pub trait Updatable {
    /// The states from which the entity can step.
    spec fn ready(&self) -> bool;

    /// Advances the entity by one step.
    fn update(&mut self) -> (r: Result<(), SimulationError>)
        requires
            old(self).ready(),
    ;
}

} // verus!
