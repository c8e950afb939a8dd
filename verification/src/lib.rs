//! A turn-based racing game engine: cars advance along a one-dimensional
//! track by purchasing speed-affecting actions from a repricing economy.
//!
//! The library is the deterministic core of the game: the data model, the
//! pricing of actions, the resolution of item effects against the current
//! race state, and the turn executor. Persistence, caller authentication and
//! wire encoding are left to the host; every operation here takes the race
//! state in and hands the updated state back together with a structured
//! event or an error.

pub mod contract;
pub mod error;
pub mod helpers;
pub mod laws;
pub mod msg;
pub mod query;
pub mod state;

pub use state::ActionType;
pub use state::CarData;
pub use state::Config;
pub use state::GameState;
pub use state::State;
