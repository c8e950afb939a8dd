//! The message surface of the engine: commands, queries, query responses and
//! the structured event record every operation returns for reporting.

use vstd::prelude::*;

use crate::state::CarData;
use crate::state::Config;
use crate::state::State;

verus! {

#[derive(Clone, Debug, PartialEq, Eq)]
pub struct InstantiateMsg {
    pub owner: String,
}

/// A command against one race.
#[derive(Clone, Debug, PartialEq, Eq)]
pub enum ExecuteMsg {
    Register { car_addrs: Vec<String> },
    Reset {},
    Play { turns_to_play: u64 },
    BuyShell { amount: u64 },
    BuyAccelerate { amount: u64 },
    BuyBanana {},
    BuyShield { amount: u64 },
    BuySuperShell { amount: u64 },
}

#[derive(Clone, Debug, PartialEq, Eq)]
pub struct AllCarDataReponse {
    pub all_cars: Vec<(String, CarData)>,
}

#[derive(Clone, Debug, PartialEq, Eq)]
pub struct OwnerResponse {
    pub owner: Option<String>,
}

#[derive(Clone, Copy, Debug, PartialEq, Eq, Structural)]
pub struct GameStateResponse {
    pub turns: u64,
    pub config: Config,
    pub state: State,
}

#[derive(Clone, Copy, Debug, PartialEq, Eq, Structural)]
pub enum QueryMsg {
    GetOwner,
    GetAllCarData,
    GetGameState,
}

/// The command surface of a per-car actor: the engine delegates one turn to
/// it and consumes whatever the actor decided as ordinary commands.
#[derive(Clone, Copy, Debug, PartialEq, Eq, Structural)]
pub enum CarExecuteMsg {
    TakeTurn {},
}

/// The structured record an operation returns for reporting: the operation,
/// the cars it touched, the numeric amounts, and the turn count it saw.
#[derive(Clone, Debug, PartialEq, Eq)]
pub enum Event {
    /// A full roster was registered.
    Registered { cars: Vec<String> },
    /// The race was reset to its initial state.
    Reset {},
    /// Turns were advanced; `turns` is the resulting counter.
    Played { turns: u64 },
    /// A shell purchase slowed the closest car ahead.
    Shelled { sender: String, shelled: String, amount: u64, turns: u64 },
    /// A shell purchase that slowed nobody (blocked by a hazard, a shield,
    /// an already-slow car, or an empty road ahead).
    BoughtShell { sender: String, turns: u64 },
    /// An acceleration purchase.
    BoughtAccelerate { sender: String, amount: u64, cost: u64, turns: u64 },
    /// A banana was placed at the buyer's position.
    BoughtBanana { sender: String, y: u64, cost: u64, turns: u64 },
    /// A banana purchase that was a refunded no-op because a hazard already
    /// sits at the buyer's position.
    BananaInPlace { sender: String, turns: u64 },
    /// A shield purchase.
    BoughtShield { sender: String, amount: u64, cost: u64, turns: u64 },
    /// A super shell purchase slowed the closest fast car ahead.
    SuperShelled { sender: String, shelled: String, cost: u64, turns: u64 },
    /// A super shell purchase that found no fast car ahead.
    BoughtSuperShell { sender: String, turns: u64 },
}

} // verus!
