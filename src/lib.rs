//! A discrete-time simulation of agents competing for a regenerating
//! resource on a rectangular grid of cells.
//!
//! - [`Cell`]: resource storage and regeneration at one grid position.
//! - [`Agent`]: a mobile entity that is fed, moves when hungry and may die.
//! - [`World`]: the grid and its agents, with the per-tick update.
//! - [`WorldConfig`]: the envelope from which a random world is generated.
//! - [`SimulationError`]: the failures of single-entity operations.
//! - [`Updatable`]: advancing an entity by one step.
pub mod agent;
pub mod cell;
pub mod errors;
pub mod generate;
pub mod traits;
pub mod world;

pub use agent::{Agent, AgentView};
pub use cell::{Cell, CellView};
pub use errors::SimulationError;
pub use generate::WorldConfig;
pub use traits::Updatable;
pub use world::{World, WorldView};
