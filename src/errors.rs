use vstd::prelude::*;

verus! {

/// Failures reported by operations on a single cell or agent.
#[derive(Debug, Clone, Copy, PartialEq, Eq, Structural)]
pub enum SimulationError {
    /// The operation needs a living agent, and the agent is dead.
    NotAlive,
    /// An exact amount was asked of a cell that holds only `available`.
    NotEnoughResources { available: u32 },
}

} // verus!
