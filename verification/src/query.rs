//! Read-only views over the race state, shaped for reporting.

use vstd::prelude::*;

use crate::msg::AllCarDataReponse;
use crate::msg::GameStateResponse;
use crate::msg::OwnerResponse;
use crate::state::CarData;
use crate::state::GameState;

verus! {

/// The registered owner, as the host recorded it.
pub fn get_owner(owner: Option<String>) -> (resp: OwnerResponse)
    ensures
        resp.owner == owner,
{
    OwnerResponse { owner }
}

/// The race's turn counter, configuration and lifecycle state.
pub fn get_game_state(state: &GameState) -> (resp: GameStateResponse)
    ensures
        resp.turns == state.turns,
        resp.config == state.config,
        resp.state == state.state,
{
    GameStateResponse { turns: state.turns, config: state.config, state: state.state }
}

/// Every registered car's record, keyed by its identity, in roster order.
pub fn get_all_car_data(state: &GameState) -> (resp: AllCarDataReponse)
    ensures
        resp.all_cars@.len() == state.all_cars@.len(),
        forall|i: int|
            0 <= i < state.all_cars@.len() ==> (#[trigger] resp.all_cars@[i]).0
                == state.all_cars@[i].addr && resp.all_cars@[i].1 == state.all_cars@[i],
{
    let n = state.all_cars.len();
    let mut all: Vec<(String, CarData)> = Vec::new();
    let mut i: usize = 0;
    while i < n
        invariant
            i <= n,
            n == state.all_cars@.len(),
            all@.len() == i,
            forall|k: int|
                0 <= k < i ==> (#[trigger] all@[k]).0 == state.all_cars@[k].addr && all@[k].1
                    == state.all_cars@[k],
        decreases n - i,
    {
        let car = &state.all_cars[i];
        all.push((car.addr.clone(), car.duplicate()));
        i = i + 1;
    }
    AllCarDataReponse { all_cars: all }
}

} // verus!
