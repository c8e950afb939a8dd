//! The race state machine: lifecycle (reset, registration), item purchases
//! against the repricing economy, and the turn executor.
//!
//! Every operation is state-in/state-out: it takes the race state by mutable
//! reference, leaves it untouched on any error, and returns a structured
//! [`Event`] on success. Caller authentication is an external concern: the
//! host decides whether the caller is the race owner and passes the verdict
//! in as `caller_is_owner`.

use vstd::prelude::*;

use crate::error::ContractError;
use crate::helpers::get_accel_cost;
use crate::helpers::get_banana_cost;
use crate::helpers::get_shell_cost;
use crate::helpers::get_shield_cost;
use crate::helpers::get_super_shell_cost;
use crate::helpers::spec_action_price;
use crate::helpers::spec_cost;
use crate::msg::Event;
use crate::msg::ExecuteMsg;
use crate::state::ActionType;
use crate::state::CarData;
use crate::state::GameState;
use crate::state::State;

verus! {

/// Some car is registered under `addr`.
pub open spec fn is_registered(cars: Seq<CarData>, addr: Seq<char>) -> bool {
    exists|i: int| 0 <= i < cars.len() && cars[i].addr@ == addr
}

/// `i` is the roster index of the car registered under `addr` (the first
/// match in roster order; under distinct identities, the only one).
pub open spec fn is_car_index(cars: Seq<CarData>, addr: Seq<char>, i: int) -> bool {
    &&& 0 <= i < cars.len()
    &&& cars[i].addr@ == addr
    &&& forall|j: int| 0 <= j < i ==> cars[j].addr@ != addr
}

/// The car at index `i` sits strictly ahead of position `y`.
pub open spec fn is_ahead(cars: Seq<CarData>, y: u64, i: int) -> bool {
    0 <= i < cars.len() && cars[i].y > y
}

/// `i` is the closest car strictly ahead of `y`: no car ahead is nearer,
/// and among equally near cars `i` is the first in roster order.
pub open spec fn is_closest_ahead(cars: Seq<CarData>, y: u64, i: int) -> bool {
    &&& is_ahead(cars, y, i)
    &&& forall|j: int| is_ahead(cars, y, j) ==> cars[i].y <= cars[j].y
    &&& forall|j: int| 0 <= j < i && is_ahead(cars, y, j) ==> cars[i].y < cars[j].y
}

/// The car at index `i` sits strictly ahead of `y` and moves faster than the
/// post-effect speed cap.
pub open spec fn is_fast_ahead(cars: Seq<CarData>, y: u64, cap: u64, i: int) -> bool {
    0 <= i < cars.len() && cars[i].y > y && cars[i].speed > cap
}

/// `i` is the closest car strictly ahead of `y` among those faster than the
/// cap, with the same tie-break as [`is_closest_ahead`].
pub open spec fn is_closest_fast_ahead(cars: Seq<CarData>, y: u64, cap: u64, i: int) -> bool {
    &&& is_fast_ahead(cars, y, cap, i)
    &&& forall|j: int| is_fast_ahead(cars, y, cap, j) ==> cars[i].y <= cars[j].y
    &&& forall|j: int| 0 <= j < i && is_fast_ahead(cars, y, cap, j) ==> cars[i].y < cars[j].y
}

/// `i` indexes the first hazard strictly above `y`; with hazards kept in
/// ascending position order this is the nearest hazard ahead.
pub open spec fn is_first_banana_above(bananas: Seq<u64>, y: u64, i: int) -> bool {
    &&& 0 <= i < bananas.len()
    &&& bananas[i] > y
    &&& forall|j: int| 0 <= j < i ==> bananas[j] <= y
}

/// There is at most one roster index registered under `addr` in the sense
/// of [`is_car_index`].
pub proof fn lemma_car_index_unique(cars: Seq<CarData>, addr: Seq<char>, i: int, j: int)
    requires
        is_car_index(cars, addr, i),
        is_car_index(cars, addr, j),
    ensures
        i == j,
{
}

/// There is at most one index of the first hazard above `y`.
pub proof fn lemma_first_banana_above_unique(bananas: Seq<u64>, y: u64, i: int, j: int)
    requires
        is_first_banana_above(bananas, y, i),
        is_first_banana_above(bananas, y, j),
    ensures
        i == j,
{
}

/// Roster index of the car registered under `addr`, or `None`.
fn find_car(cars: &Vec<CarData>, addr: &String) -> (r: Option<usize>)
    ensures
        match r {
            Some(i) => is_car_index(cars@, addr@, i as int),
            None => !is_registered(cars@, addr@),
        },
{
    let n = cars.len();
    let mut i: usize = 0;
    while i < n
        invariant
            i <= n,
            n == cars@.len(),
            forall|j: int| 0 <= j < i ==> cars@[j].addr@ != addr@,
        decreases n - i,
    {
        if cars[i].addr == *addr {
            return Some(i);
        }
        i = i + 1;
    }
    None
}

/// Index of the closest car strictly ahead of `y`, or `None` when the road
/// ahead is empty. Among equally near cars the first in roster order wins.
fn find_closest_ahead(cars: &Vec<CarData>, y: u64) -> (r: Option<usize>)
    ensures
        match r {
            Some(i) => is_closest_ahead(cars@, y, i as int),
            None => forall|j: int| !is_ahead(cars@, y, j),
        },
{
    let n = cars.len();
    let mut best: Option<usize> = None;
    let mut i: usize = 0;
    while i < n
        invariant
            i <= n,
            n == cars@.len(),
            match best {
                Some(b) => {
                    &&& b < i
                    &&& is_ahead(cars@, y, b as int)
                    &&& forall|j: int| 0 <= j < i && is_ahead(cars@, y, j) ==> cars@[b as int].y <= cars@[j].y
                    &&& forall|j: int|
                        0 <= j < b && is_ahead(cars@, y, j) ==> cars@[b as int].y < cars@[j].y
                },
                None => forall|j: int| 0 <= j < i ==> !is_ahead(cars@, y, j),
            },
        decreases n - i,
    {
        if cars[i].y > y {
            match best {
                Some(b) => {
                    if cars[i].y < cars[b].y {
                        best = Some(i);
                    }
                },
                None => {
                    best = Some(i);
                },
            }
        }
        i = i + 1;
    }
    best
}

/// Index of the closest car strictly ahead of `y` whose speed exceeds
/// `cap`, or `None`. Among equally near cars the first in roster order wins.
fn find_closest_fast_ahead(cars: &Vec<CarData>, y: u64, cap: u64) -> (r: Option<usize>)
    ensures
        match r {
            Some(i) => is_closest_fast_ahead(cars@, y, cap, i as int),
            None => forall|j: int| !is_fast_ahead(cars@, y, cap, j),
        },
{
    let n = cars.len();
    let mut best: Option<usize> = None;
    let mut i: usize = 0;
    while i < n
        invariant
            i <= n,
            n == cars@.len(),
            match best {
                Some(b) => {
                    &&& b < i
                    &&& is_fast_ahead(cars@, y, cap, b as int)
                    &&& forall|j: int|
                        0 <= j < i && is_fast_ahead(cars@, y, cap, j)
                            ==> cars@[b as int].y <= cars@[j].y
                    &&& forall|j: int|
                        0 <= j < b && is_fast_ahead(cars@, y, cap, j)
                            ==> cars@[b as int].y < cars@[j].y
                },
                None => forall|j: int| 0 <= j < i ==> !is_fast_ahead(cars@, y, cap, j),
            },
        decreases n - i,
    {
        if cars[i].y > y && cars[i].speed > cap {
            match best {
                Some(b) => {
                    if cars[i].y < cars[b].y {
                        best = Some(i);
                    }
                },
                None => {
                    best = Some(i);
                },
            }
        }
        i = i + 1;
    }
    best
}

/// Index of the first hazard strictly above `y`, or `None` when no hazard
/// lies ahead.
fn find_first_banana_above(bananas: &Vec<u64>, y: u64) -> (r: Option<usize>)
    ensures
        match r {
            Some(i) => is_first_banana_above(bananas@, y, i as int),
            None => forall|j: int| 0 <= j < bananas@.len() ==> bananas@[j] <= y,
        },
{
    let n = bananas.len();
    let mut i: usize = 0;
    while i < n
        invariant
            i <= n,
            n == bananas@.len(),
            forall|j: int| 0 <= j < i ==> bananas@[j] <= y,
        decreases n - i,
    {
        if bananas[i] > y {
            return Some(i);
        }
        i = i + 1;
    }
    None
}

/// What `execute_reset` promises: only the owner may reset, and a reset
/// returns the race to the freshly instantiated state.
pub open spec fn reset_post(
    pre: GameState,
    caller_is_owner: bool,
    post: GameState,
    r: Result<Event, ContractError>,
) -> bool {
    if caller_is_owner {
        &&& GameState::is_default(post)
        &&& r == Ok::<Event, ContractError>(Event::Reset {})
    } else {
        &&& post == pre
        &&& r == Err::<Event, ContractError>(ContractError::Unauthorized)
    }
}

/// Reset the race to its initial state. Restricted to the race owner.
pub fn execute_reset(state: &mut GameState, caller_is_owner: bool) -> (r: Result<
    Event,
    ContractError,
>)
    requires
        old(state).wf(),
    ensures
        reset_post(*old(state), caller_is_owner, *final(state), r),
        final(state).wf(),
{
    if !caller_is_owner {
        return Err(ContractError::Unauthorized);
    }
    *state = GameState::default();
    Ok(Event::Reset {})
}

/// What `execute_register` promises: only the owner may register, a full
/// roster cannot be re-registered, and on success every given identity gets
/// a fresh car with the configured starting balance and zero position,
/// speed and shield, with the race turned Active.
pub open spec fn register_post(
    pre: GameState,
    caller_is_owner: bool,
    car_addrs: Vec<String>,
    post: GameState,
    r: Result<Event, ContractError>,
) -> bool {
    if !caller_is_owner {
        &&& post == pre
        &&& r == Err::<Event, ContractError>(ContractError::Unauthorized)
    } else if pre.all_cars@.len() == pre.config.num_players {
        &&& post == pre
        &&& r == Err::<Event, ContractError>(ContractError::LimitPlayers)
    } else {
        &&& post.all_cars@.len() == car_addrs@.len()
        &&& forall|i: int|
            0 <= i < car_addrs@.len() ==> {
                &&& (#[trigger] post.all_cars@[i]).addr == car_addrs@[i]
                &&& post.all_cars@[i].balance == pre.config.init_balance
                &&& post.all_cars@[i].y == 0
                &&& post.all_cars@[i].speed == 0
                &&& post.all_cars@[i].shield == 0
            }
        &&& post.state == State::Active
        &&& post.turns == pre.turns
        &&& post.config == pre.config
        &&& post.bananas == pre.bananas
        &&& post.sold == pre.sold
        &&& r == Ok::<Event, ContractError>(Event::Registered { cars: car_addrs })
    }
}

/// Register the full roster at once and turn the race Active. Restricted to
/// the race owner; a roster that already holds the required count cannot be
/// replaced. The roster must hold exactly the required player count, one
/// car per distinct identity.
pub fn execute_register(
    state: &mut GameState,
    caller_is_owner: bool,
    car_addrs: Vec<String>,
) -> (r: Result<Event, ContractError>)
    requires
        old(state).wf(),
        car_addrs@.len() == old(state).config.num_players,
        forall|i: int, j: int|
            0 <= i < j < car_addrs@.len() ==> car_addrs@[i]@ != car_addrs@[j]@,
    ensures
        register_post(*old(state), caller_is_owner, car_addrs, *final(state), r),
        final(state).wf(),
{
    if !caller_is_owner {
        return Err(ContractError::Unauthorized);
    }
    if state.total_cars() == state.config.num_players {
        return Err(ContractError::LimitPlayers);
    }
    state.register(&car_addrs);
    state.state = State::Active;
    Ok(Event::Registered { cars: car_addrs })
}

/// What `execute_buy_accelerate` promises: a zero quantity, an unknown
/// caller or an unaffordable cost is rejected with the race untouched;
/// otherwise the buyer pays the batch price, the ledger records the sale,
/// and the buyer's speed grows by `amount` (saturating).
pub open spec fn buy_accelerate_post(
    pre: GameState,
    sender: String,
    amount: u64,
    post: GameState,
    r: Result<Event, ContractError>,
) -> bool {
    let cost = spec_cost(
        pre.config.accel_target_price,
        pre.config.accel_per_turn_decrease,
        pre.turns,
        pre.sold.accelerate as int,
        pre.config.accel_sell_per_turn,
        amount as nat,
    );
    if amount == 0 {
        post == pre && r == Err::<Event, ContractError>(ContractError::ZeroAmount)
    } else if !is_registered(pre.all_cars@, sender@) {
        post == pre && r == Err::<Event, ContractError>(ContractError::UnknownCar)
    } else {
        exists|ci: int|
            #[trigger] is_car_index(pre.all_cars@, sender@, ci) && {
                let buyer = pre.all_cars@[ci];
                if (buyer.balance as int) < cost {
                    post == pre && r == Err::<Event, ContractError>(
                        ContractError::InsufficientBalance,
                    )
                } else {
                    &&& post.all_cars@ == pre.all_cars@.update(
                        ci,
                        (CarData {
                            balance: (buyer.balance - cost) as u64,
                            speed: buyer.speed.saturating_add(amount),
                            ..buyer
                        }),
                    )
                    &&& post.turns == pre.turns
                    &&& post.state == pre.state
                    &&& post.config == pre.config
                    &&& post.bananas == pre.bananas
                    &&& post.sold == pre.sold.spec_add(ActionType::Accelerate, amount)
                    &&& r == Ok::<Event, ContractError>(
                        Event::BoughtAccelerate {
                            sender,
                            amount,
                            cost: cost as u64,
                            turns: pre.turns,
                        },
                    )
                }
            }
    }
}

/// Buy `amount` units of acceleration: the buyer pays the batch price and
/// speeds up by `amount`.
pub fn execute_buy_accelerate(state: &mut GameState, sender: &String, amount: u64) -> (r: Result<
    Event,
    ContractError,
>)
    requires
        old(state).wf(),
    ensures
        buy_accelerate_post(*old(state), *sender, amount, *final(state), r),
        final(state).wf(),
{
    if amount == 0 {
        return Err(ContractError::ZeroAmount);
    }
    let ci = match find_car(&state.all_cars, sender) {
        Some(i) => i,
        None => {
            return Err(ContractError::UnknownCar);
        },
    };
    let cost = get_accel_cost(state, amount, state.sold.accelerate);
    let buyer = &state.all_cars[ci];
    if buyer.balance < cost {
        return Err(ContractError::InsufficientBalance);
    }
    let updated = CarData {
        balance: buyer.balance - cost,
        addr: buyer.addr.clone(),
        y: buyer.y,
        speed: buyer.speed.saturating_add(amount),
        shield: buyer.shield,
    };
    state.all_cars.set(ci, updated);
    state.sold.add(ActionType::Accelerate, amount);
    Ok(Event::BoughtAccelerate { sender: sender.clone(), amount, cost, turns: state.turns })
}

/// What `execute_buy_shield` promises: the same rejection rules as every
/// purchase; on success the buyer pays the batch price, the ledger records
/// the sale, and the buyer's shield grows by `amount + 1` (saturating) —
/// the extra charge covers the current turn's decay.
pub open spec fn buy_shield_post(
    pre: GameState,
    sender: String,
    amount: u64,
    post: GameState,
    r: Result<Event, ContractError>,
) -> bool {
    let cost = spec_cost(
        pre.config.shield_target_price,
        pre.config.shield_per_turn_decrease,
        pre.turns,
        pre.sold.shield as int,
        pre.config.shield_sell_per_turn,
        amount as nat,
    );
    if amount == 0 {
        post == pre && r == Err::<Event, ContractError>(ContractError::ZeroAmount)
    } else if !is_registered(pre.all_cars@, sender@) {
        post == pre && r == Err::<Event, ContractError>(ContractError::UnknownCar)
    } else {
        exists|ci: int|
            #[trigger] is_car_index(pre.all_cars@, sender@, ci) && {
                let buyer = pre.all_cars@[ci];
                if (buyer.balance as int) < cost {
                    post == pre && r == Err::<Event, ContractError>(
                        ContractError::InsufficientBalance,
                    )
                } else {
                    &&& post.all_cars@ == pre.all_cars@.update(
                        ci,
                        (CarData {
                            balance: (buyer.balance - cost) as u64,
                            shield: buyer.shield.saturating_add(amount).saturating_add(1),
                            ..buyer
                        }),
                    )
                    &&& post.turns == pre.turns
                    &&& post.state == pre.state
                    &&& post.config == pre.config
                    &&& post.bananas == pre.bananas
                    &&& post.sold == pre.sold.spec_add(ActionType::Shield, amount)
                    &&& r == Ok::<Event, ContractError>(
                        Event::BoughtShield { sender, amount, cost: cost as u64, turns: pre.turns },
                    )
                }
            }
    }
}

/// Buy `amount` units of shield: the buyer pays the batch price and gains
/// `amount + 1` turns of protection.
pub fn execute_buy_shield(state: &mut GameState, sender: &String, amount: u64) -> (r: Result<
    Event,
    ContractError,
>)
    requires
        old(state).wf(),
    ensures
        buy_shield_post(*old(state), *sender, amount, *final(state), r),
        final(state).wf(),
{
    if amount == 0 {
        return Err(ContractError::ZeroAmount);
    }
    let ci = match find_car(&state.all_cars, sender) {
        Some(i) => i,
        None => {
            return Err(ContractError::UnknownCar);
        },
    };
    let cost = get_shield_cost(state, amount, state.sold.shield);
    let buyer = &state.all_cars[ci];
    if buyer.balance < cost {
        return Err(ContractError::InsufficientBalance);
    }
    let updated = CarData {
        balance: buyer.balance - cost,
        addr: buyer.addr.clone(),
        y: buyer.y,
        speed: buyer.speed,
        shield: buyer.shield.saturating_add(amount).saturating_add(1),
    };
    state.all_cars.set(ci, updated);
    state.sold.add(ActionType::Shield, amount);
    Ok(Event::BoughtShield { sender: sender.clone(), amount, cost, turns: state.turns })
}

/// Whether a hazard already sits exactly at `y`.
fn has_banana_at(bananas: &Vec<u64>, y: u64) -> (b: bool)
    ensures
        b == exists|bi: int| 0 <= bi < bananas@.len() && bananas@[bi] == y,
{
    let n = bananas.len();
    let mut k: usize = 0;
    while k < n
        invariant
            k <= n,
            n == bananas@.len(),
            forall|j: int| 0 <= j < k ==> bananas@[j] != y,
        decreases n - k,
    {
        if bananas[k] == y {
            proof {
                assert(0 <= k < bananas@.len() && bananas@[k as int] == y);
            }
            return true;
        }
        k = k + 1;
    }
    false
}

/// `pi` is the position where a hazard at `y` belongs in the ascending
/// hazard list: everything before it is below `y`, everything from it on is
/// above `y`.
pub open spec fn is_insert_pos(bananas: Seq<u64>, y: u64, pi: int) -> bool {
    &&& 0 <= pi <= bananas.len()
    &&& forall|j: int| 0 <= j < pi ==> bananas[j] < y
    &&& forall|j: int| pi <= j < bananas.len() ==> bananas[j] > y
}

/// What `execute_buy_banana` promises: an unknown caller is rejected; a
/// hazard already sitting at the buyer's position makes the purchase a
/// refunded no-op; an unaffordable cost is rejected; otherwise the buyer
/// pays one unit's price, the ledger records the sale, and a hazard appears
/// at the buyer's position, keeping the hazard list in ascending order.
pub open spec fn buy_banana_post(
    pre: GameState,
    sender: String,
    post: GameState,
    r: Result<Event, ContractError>,
) -> bool {
    let cost = spec_action_price(
        pre.config.banana_target_price,
        pre.config.banana_per_turn_decrease,
        pre.turns,
        pre.sold.banana,
        pre.config.banana_sell_per_turn,
    );
    if !is_registered(pre.all_cars@, sender@) {
        post == pre && r == Err::<Event, ContractError>(ContractError::UnknownCar)
    } else {
        exists|ci: int|
            #[trigger] is_car_index(pre.all_cars@, sender@, ci) && {
                let buyer = pre.all_cars@[ci];
                if exists|bi: int| 0 <= bi < pre.bananas@.len() && pre.bananas@[bi] == buyer.y {
                    post == pre && r == Ok::<Event, ContractError>(
                        Event::BananaInPlace { sender, turns: pre.turns },
                    )
                } else if (buyer.balance as int) < cost {
                    post == pre && r == Err::<Event, ContractError>(
                        ContractError::InsufficientBalance,
                    )
                } else {
                    &&& post.all_cars@ == pre.all_cars@.update(
                        ci,
                        (CarData { balance: (buyer.balance - cost) as u64, ..buyer }),
                    )
                    &&& exists|pi: int|
                        #[trigger] is_insert_pos(pre.bananas@, buyer.y, pi) && post.bananas@
                            == pre.bananas@.insert(pi, buyer.y)
                    &&& post.turns == pre.turns
                    &&& post.state == pre.state
                    &&& post.config == pre.config
                    &&& post.sold == pre.sold.spec_add(ActionType::Banana, 1)
                    &&& r == Ok::<Event, ContractError>(
                        Event::BoughtBanana {
                            sender,
                            y: buyer.y,
                            cost: cost as u64,
                            turns: pre.turns,
                        },
                    )
                }
            }
    }
}

/// Buy a banana: a hazard appears at the buyer's current position, unless
/// one already sits there (then the purchase is a refunded no-op).
pub fn execute_buy_banana(state: &mut GameState, sender: &String) -> (r: Result<
    Event,
    ContractError,
>)
    requires
        old(state).wf(),
    ensures
        buy_banana_post(*old(state), *sender, *final(state), r),
        final(state).wf(),
{
    let ci = match find_car(&state.all_cars, sender) {
        Some(i) => i,
        None => {
            return Err(ContractError::UnknownCar);
        },
    };
    let y = state.all_cars[ci].y;

    if has_banana_at(&state.bananas, y) {
        return Ok(Event::BananaInPlace { sender: sender.clone(), turns: state.turns });
    }
    let n = state.bananas.len();

    let cost = get_banana_cost(state, state.sold.banana);
    let buyer = &state.all_cars[ci];
    if buyer.balance < cost {
        return Err(ContractError::InsufficientBalance);
    }
    let updated = CarData {
        balance: buyer.balance - cost,
        addr: buyer.addr.clone(),
        y: buyer.y,
        speed: buyer.speed,
        shield: buyer.shield,
    };
    state.all_cars.set(ci, updated);
    state.sold.add(ActionType::Banana, 1);

    let mut pi: usize = 0;
    while pi < n && state.bananas[pi] < y
        invariant
            pi <= n,
            n == state.bananas@.len(),
            forall|j: int| 0 <= j < pi ==> state.bananas@[j] < y,
        decreases n - pi,
    {
        pi = pi + 1;
    }
    proof {
        assert(forall|j: int| pi <= j < state.bananas@.len() ==> state.bananas@[j] > y) by {
            assert(forall|j: int|
                pi < j < state.bananas@.len() ==> state.bananas@[pi as int]
                    < #[trigger] state.bananas@[j]);
        }
        assert(is_insert_pos(state.bananas@, y, pi as int));
    }
    let ghost pre_bananas = state.bananas@;
    state.bananas.insert(pi, y);
    proof {
        assert(forall|i: int, j: int|
            0 <= i < j < state.bananas@.len() ==> state.bananas@[i] < state.bananas@[j]) by {
            assert(forall|i: int|
                0 <= i < pre_bananas.len() + 1 ==> #[trigger] state.bananas@[i] == (if i
                    < pi as int {
                    pre_bananas[i]
                } else if i == pi as int {
                    y
                } else {
                    pre_bananas[i - 1]
                }));
        }
    }
    Ok(Event::BoughtBanana { sender: sender.clone(), y, cost, turns: state.turns })
}

/// There is at most one closest car ahead of `y`.
pub proof fn lemma_closest_ahead_unique(cars: Seq<CarData>, y: u64, i: int, j: int)
    requires
        is_closest_ahead(cars, y, i),
        is_closest_ahead(cars, y, j),
    ensures
        i == j,
{
    if i < j {
        assert(cars[j].y < cars[i].y);
        assert(cars[i].y <= cars[j].y);
    }
    if j < i {
        assert(cars[i].y < cars[j].y);
        assert(cars[j].y <= cars[i].y);
    }
}

/// There is at most one closest fast car ahead of `y`.
pub proof fn lemma_closest_fast_ahead_unique(cars: Seq<CarData>, y: u64, cap: u64, i: int, j: int)
    requires
        is_closest_fast_ahead(cars, y, cap, i),
        is_closest_fast_ahead(cars, y, cap, j),
    ensures
        i == j,
{
    if i < j {
        assert(cars[j].y < cars[i].y);
        assert(cars[i].y <= cars[j].y);
    }
    if j < i {
        assert(cars[i].y < cars[j].y);
        assert(cars[j].y <= cars[i].y);
    }
}

/// A hazard ahead of the shooter blocks the shell: there is a hazard
/// strictly above `y`, and either the road ahead is empty of cars or the
/// nearest such hazard sits at or before the closest car ahead.
pub open spec fn shell_blocked(cars: Seq<CarData>, bananas: Seq<u64>, y: u64) -> bool {
    exists|bi: int|
        #[trigger] is_first_banana_above(bananas, y, bi) && ((forall|j: int|
            !is_ahead(cars, y, j)) || exists|ti: int|
            #[trigger] is_closest_ahead(cars, y, ti) && bananas[bi] <= cars[ti].y)
}

/// What `execute_buy_shell` promises: the usual purchase rejections;
/// otherwise the buyer pays and the ledger records the sale, and then
/// exactly one of three things happens. A hazard at or before the closest
/// car ahead is consumed and nothing else moves. Failing that, a closest
/// car ahead that carries no shield and exceeds the speed cap is clamped
/// down to the cap. Otherwise the shell fizzles with no further effect.
pub open spec fn buy_shell_post(
    pre: GameState,
    sender: String,
    amount: u64,
    post: GameState,
    r: Result<Event, ContractError>,
) -> bool {
    let cost = spec_cost(
        pre.config.shell_target_price,
        pre.config.shell_per_turn_decrease,
        pre.turns,
        pre.sold.shell as int,
        pre.config.shell_sell_per_turn,
        amount as nat,
    );
    if amount == 0 {
        post == pre && r == Err::<Event, ContractError>(ContractError::ZeroAmount)
    } else if !is_registered(pre.all_cars@, sender@) {
        post == pre && r == Err::<Event, ContractError>(ContractError::UnknownCar)
    } else {
        exists|ci: int|
            #[trigger] is_car_index(pre.all_cars@, sender@, ci) && {
                let buyer = pre.all_cars@[ci];
                if (buyer.balance as int) < cost {
                    post == pre && r == Err::<Event, ContractError>(
                        ContractError::InsufficientBalance,
                    )
                } else {
                    let cars1 = pre.all_cars@.update(
                        ci,
                        (CarData { balance: (buyer.balance - cost) as u64, ..buyer }),
                    );
                    &&& post.turns == pre.turns
                    &&& post.state == pre.state
                    &&& post.config == pre.config
                    &&& post.sold == pre.sold.spec_add(ActionType::Shell, amount)
                    &&& if shell_blocked(pre.all_cars@, pre.bananas@, buyer.y) {
                        &&& post.all_cars@ == cars1
                        &&& exists|bi: int|
                            #[trigger] is_first_banana_above(pre.bananas@, buyer.y, bi)
                                && post.bananas@ == pre.bananas@.remove(bi)
                        &&& r == Ok::<Event, ContractError>(
                            Event::BoughtShell { sender, turns: pre.turns },
                        )
                    } else {
                        &&& post.bananas == pre.bananas
                        &&& if exists|ti: int|
                            #[trigger] is_closest_ahead(pre.all_cars@, buyer.y, ti)
                                && pre.all_cars@[ti].shield == 0 && pre.all_cars@[ti].speed
                                > pre.config.post_sell_speed {
                            exists|ti: int|
                                #[trigger] is_closest_ahead(pre.all_cars@, buyer.y, ti)
                                    && pre.all_cars@[ti].shield == 0 && pre.all_cars@[ti].speed
                                    > pre.config.post_sell_speed && {
                                    &&& post.all_cars@ == cars1.update(
                                        ti,
                                        (CarData {
                                            speed: pre.config.post_sell_speed,
                                            ..pre.all_cars@[ti]
                                        }),
                                    )
                                    &&& r == Ok::<Event, ContractError>(
                                        Event::Shelled {
                                            sender,
                                            shelled: pre.all_cars@[ti].addr,
                                            amount,
                                            turns: pre.turns,
                                        },
                                    )
                                }
                        } else {
                            &&& post.all_cars@ == cars1
                            &&& r == Ok::<Event, ContractError>(
                                Event::BoughtShell { sender, turns: pre.turns },
                            )
                        }
                    }
                }
            }
    }
}

/// Buy `amount` shells and fire once: the nearest hazard ahead blocks the
/// shot if it sits at or before the closest car ahead; otherwise the
/// closest car ahead is slowed to the cap if it is unshielded and fast.
pub fn execute_buy_shell(state: &mut GameState, sender: &String, amount: u64) -> (r: Result<
    Event,
    ContractError,
>)
    requires
        old(state).wf(),
    ensures
        buy_shell_post(*old(state), *sender, amount, *final(state), r),
        final(state).wf(),
{
    if amount == 0 {
        return Err(ContractError::ZeroAmount);
    }
    let ci = match find_car(&state.all_cars, sender) {
        Some(i) => i,
        None => {
            return Err(ContractError::UnknownCar);
        },
    };
    let cost = get_shell_cost(state, amount, state.sold.shell);
    let buyer = &state.all_cars[ci];
    if buyer.balance < cost {
        return Err(ContractError::InsufficientBalance);
    }
    let y = buyer.y;

    // Geometry is read before the payment is committed; paying only touches
    // the buyer's balance, never a position.
    let target = find_closest_ahead(&state.all_cars, y);
    let hazard = find_first_banana_above(&state.bananas, y);
    let mut blocked = false;
    if hazard.is_some() {
        blocked = match target {
            Some(ti) => state.bananas[hazard.unwrap()] <= state.all_cars[ti].y,
            None => true,
        };
    }

    let paid = CarData {
        balance: buyer.balance - cost,
        addr: buyer.addr.clone(),
        y: buyer.y,
        speed: buyer.speed,
        shield: buyer.shield,
    };
    state.all_cars.set(ci, paid);
    state.sold.add(ActionType::Shell, amount);
    let ghost pre = *old(state);

    if blocked {
        let bi = hazard.unwrap();
        proof {
            assert(shell_blocked(pre.all_cars@, pre.bananas@, y));
        }
        state.bananas.remove(bi);
        return Ok(Event::BoughtShell { sender: sender.clone(), turns: state.turns });
    }
    proof {
        if shell_blocked(pre.all_cars@, pre.bananas@, y) {
            let bi0 = choose|bi: int|
                #[trigger] is_first_banana_above(pre.bananas@, y, bi) && ((forall|j: int|
                    !is_ahead(pre.all_cars@, y, j)) || exists|ti: int|
                    #[trigger] is_closest_ahead(pre.all_cars@, y, ti) && pre.bananas@[bi]
                        <= pre.all_cars@[ti].y);
            match hazard {
                Some(bi) => {
                    lemma_first_banana_above_unique(pre.bananas@, y, bi0, bi as int);
                    match target {
                        Some(ti) => {
                            assert(exists|t2: int|
                                #[trigger] is_closest_ahead(pre.all_cars@, y, t2)
                                    && pre.bananas@[bi0] <= pre.all_cars@[t2].y);
                            let t2 = choose|t2: int|
                                #[trigger] is_closest_ahead(pre.all_cars@, y, t2)
                                    && pre.bananas@[bi0] <= pre.all_cars@[t2].y;
                            lemma_closest_ahead_unique(pre.all_cars@, y, t2, ti as int);
                            assert(false);
                        },
                        None => {
                            assert(false);
                        },
                    }
                },
                None => {
                    assert(false);
                },
            }
        }
    }
    if let Some(ti) = target {
        proof {
            assert(pre.all_cars@[ti as int].y > y);
            assert(state.all_cars@[ti as int] == pre.all_cars@[ti as int]);
        }
        let t = &state.all_cars[ti];
        if t.shield == 0 && t.speed > state.config.post_sell_speed {
            let slowed = CarData {
                balance: t.balance,
                addr: t.addr.clone(),
                y: t.y,
                speed: state.config.post_sell_speed,
                shield: t.shield,
            };
            let shelled_addr = slowed.addr.clone();
            state.all_cars.set(ti, slowed);
            return Ok(
                Event::Shelled {
                    sender: sender.clone(),
                    shelled: shelled_addr,
                    amount,
                    turns: state.turns,
                },
            );
        }
        proof {
            if exists|t2: int|
                #[trigger] is_closest_ahead(pre.all_cars@, y, t2) && pre.all_cars@[t2].shield == 0
                    && pre.all_cars@[t2].speed > pre.config.post_sell_speed {
                let t2 = choose|t2: int|
                    #[trigger] is_closest_ahead(pre.all_cars@, y, t2) && pre.all_cars@[t2].shield
                        == 0 && pre.all_cars@[t2].speed > pre.config.post_sell_speed;
                lemma_closest_ahead_unique(pre.all_cars@, y, t2, ti as int);
                assert(false);
            }
        }
    }
    Ok(Event::BoughtShell { sender: sender.clone(), turns: state.turns })
}

/// What `execute_buy_super_shell` promises: the usual purchase rejections;
/// otherwise the buyer pays and the ledger records the sale, and the
/// closest car ahead whose speed exceeds the cap is clamped down to the cap
/// — shield charges are ignored entirely, and hazards are never touched.
pub open spec fn buy_super_shell_post(
    pre: GameState,
    sender: String,
    amount: u64,
    post: GameState,
    r: Result<Event, ContractError>,
) -> bool {
    let cost = spec_cost(
        pre.config.ss_target_price,
        pre.config.ss_per_turn_decrease,
        pre.turns,
        pre.sold.super_shell as int,
        pre.config.ss_sell_per_turn,
        amount as nat,
    );
    if amount == 0 {
        post == pre && r == Err::<Event, ContractError>(ContractError::ZeroAmount)
    } else if !is_registered(pre.all_cars@, sender@) {
        post == pre && r == Err::<Event, ContractError>(ContractError::UnknownCar)
    } else {
        exists|ci: int|
            #[trigger] is_car_index(pre.all_cars@, sender@, ci) && {
                let buyer = pre.all_cars@[ci];
                if (buyer.balance as int) < cost {
                    post == pre && r == Err::<Event, ContractError>(
                        ContractError::InsufficientBalance,
                    )
                } else {
                    let cars1 = pre.all_cars@.update(
                        ci,
                        (CarData { balance: (buyer.balance - cost) as u64, ..buyer }),
                    );
                    &&& post.turns == pre.turns
                    &&& post.state == pre.state
                    &&& post.config == pre.config
                    &&& post.bananas == pre.bananas
                    &&& post.sold == pre.sold.spec_add(ActionType::SuperShell, amount)
                    &&& if exists|ti: int|
                        #[trigger] is_closest_fast_ahead(
                            pre.all_cars@,
                            buyer.y,
                            pre.config.post_sell_speed,
                            ti,
                        ) {
                        exists|ti: int|
                            #[trigger] is_closest_fast_ahead(
                                pre.all_cars@,
                                buyer.y,
                                pre.config.post_sell_speed,
                                ti,
                            ) && {
                                &&& post.all_cars@ == cars1.update(
                                    ti,
                                    (CarData {
                                        speed: pre.config.post_sell_speed,
                                        ..pre.all_cars@[ti]
                                    }),
                                )
                                &&& r == Ok::<Event, ContractError>(
                                    Event::SuperShelled {
                                        sender,
                                        shelled: pre.all_cars@[ti].addr,
                                        cost: cost as u64,
                                        turns: pre.turns,
                                    },
                                )
                            }
                    } else {
                        &&& post.all_cars@ == cars1
                        &&& r == Ok::<Event, ContractError>(
                            Event::BoughtSuperShell { sender, turns: pre.turns },
                        )
                    }
                }
            }
    }
}

/// Buy `amount` super shells and fire once: the closest car ahead that
/// exceeds the speed cap is clamped down to it, shield or no shield;
/// hazards on the track are ignored.
pub fn execute_buy_super_shell(state: &mut GameState, sender: &String, amount: u64) -> (r: Result<
    Event,
    ContractError,
>)
    requires
        old(state).wf(),
    ensures
        buy_super_shell_post(*old(state), *sender, amount, *final(state), r),
        final(state).wf(),
{
    if amount == 0 {
        return Err(ContractError::ZeroAmount);
    }
    let ci = match find_car(&state.all_cars, sender) {
        Some(i) => i,
        None => {
            return Err(ContractError::UnknownCar);
        },
    };
    let cost = get_super_shell_cost(state, amount, state.sold.super_shell);
    let buyer = &state.all_cars[ci];
    if buyer.balance < cost {
        return Err(ContractError::InsufficientBalance);
    }
    let y = buyer.y;

    let target = find_closest_fast_ahead(&state.all_cars, y, state.config.post_sell_speed);

    let paid = CarData {
        balance: buyer.balance - cost,
        addr: buyer.addr.clone(),
        y: buyer.y,
        speed: buyer.speed,
        shield: buyer.shield,
    };
    state.all_cars.set(ci, paid);
    state.sold.add(ActionType::SuperShell, amount);
    let ghost pre = *old(state);

    match target {
        Some(ti) => {
            proof {
                assert(pre.all_cars@[ti as int].y > y);
                assert(state.all_cars@[ti as int] == pre.all_cars@[ti as int]);
            }
            let t = &state.all_cars[ti];
            let slowed = CarData {
                balance: t.balance,
                addr: t.addr.clone(),
                y: t.y,
                speed: state.config.post_sell_speed,
                shield: t.shield,
            };
            let shelled_addr = slowed.addr.clone();
            state.all_cars.set(ti, slowed);
            Ok(
                Event::SuperShelled {
                    sender: sender.clone(),
                    shelled: shelled_addr,
                    cost,
                    turns: state.turns,
                },
            )
        },
        None => Ok(Event::BoughtSuperShell { sender: sender.clone(), turns: state.turns }),
    }
}

/// The position a car reaches when it tries to advance from `y` to
/// `target`: the nearest hazard strictly above `y` stops it there if it
/// lies within reach, otherwise the car reaches `target`.
pub open spec fn spec_stop_y(bananas: Seq<u64>, y: u64, target: u64) -> u64 {
    if exists|bi: int| #[trigger] is_first_banana_above(bananas, y, bi) && bananas[bi] <= target {
        let bi = choose|bi: int|
            #[trigger] is_first_banana_above(bananas, y, bi) && bananas[bi] <= target;
        bananas[bi]
    } else {
        target
    }
}

/// One turn's effect on one car: a positive shield decays by one, and the
/// car advances by its speed (saturating), stopping at the nearest hazard
/// strictly between its position (exclusive) and its goal (inclusive).
/// Hazards are not consumed by passage; only shell resolution removes them.
pub open spec fn spec_car_step(car: CarData, bananas: Seq<u64>) -> CarData {
    let decayed = if car.shield > 0 {
        (car.shield - 1) as u64
    } else {
        0u64
    };
    CarData {
        y: spec_stop_y(bananas, car.y, car.y.saturating_add(car.speed)),
        shield: decayed,
        ..car
    }
}

/// The car after `k` turns against an unchanging hazard list.
pub open spec fn spec_car_after_turns(car: CarData, bananas: Seq<u64>, k: nat) -> CarData
    decreases k,
{
    if k == 0 {
        car
    } else {
        spec_car_step(spec_car_after_turns(car, bananas, (k - 1) as nat), bananas)
    }
}

/// A turn never changes a car's identity or balance.
pub proof fn lemma_car_after_turns_keeps_addr(car: CarData, bananas: Seq<u64>, k: nat)
    ensures
        spec_car_after_turns(car, bananas, k).addr == car.addr,
        spec_car_after_turns(car, bananas, k).balance == car.balance,
    decreases k,
{
    if k > 0 {
        lemma_car_after_turns_keeps_addr(car, bananas, (k - 1) as nat);
    }
}

/// What `execute_play` promises: only the owner may advance turns, and a
/// request without a full roster fails atomically with no turns committed.
/// Otherwise every car takes `turns_to_play` turns (shield decay, movement
/// with hazard clamping) and the turn counter grows by exactly
/// `turns_to_play` (saturating); hazards, the ledger, the configuration and
/// the lifecycle state are untouched.
pub open spec fn play_post(
    pre: GameState,
    caller_is_owner: bool,
    turns_to_play: u64,
    post: GameState,
    r: Result<Event, ContractError>,
) -> bool {
    if !caller_is_owner {
        post == pre && r == Err::<Event, ContractError>(ContractError::Unauthorized)
    } else if pre.all_cars@.len() != pre.config.num_players {
        post == pre && r == Err::<Event, ContractError>(ContractError::NotEnoughPlayers)
    } else {
        &&& post.all_cars@.len() == pre.all_cars@.len()
        &&& forall|i: int|
            0 <= i < pre.all_cars@.len() ==> #[trigger] post.all_cars@[i]
                == spec_car_after_turns(pre.all_cars@[i], pre.bananas@, turns_to_play as nat)
        &&& post.turns == pre.turns.saturating_add(turns_to_play)
        &&& post.state == pre.state
        &&& post.config == pre.config
        &&& post.bananas == pre.bananas
        &&& post.sold == pre.sold
        &&& r == Ok::<Event, ContractError>(Event::Played { turns: post.turns })
    }
}

/// Where a car starting at `y` and aiming for `target` actually stops.
fn stop_position(bananas: &Vec<u64>, y: u64, target: u64) -> (stop: u64)
    requires
        y <= target,
    ensures
        stop == spec_stop_y(bananas@, y, target),
{
    match find_first_banana_above(bananas, y) {
        Some(bi) => {
            let b = bananas[bi];
            if b <= target {
                proof {
                    assert(is_first_banana_above(bananas@, y, bi as int) && bananas@[bi as int]
                        <= target);
                    let cbi = choose|i: int|
                        #[trigger] is_first_banana_above(bananas@, y, i) && bananas@[i] <= target;
                    lemma_first_banana_above_unique(bananas@, y, cbi, bi as int);
                }
                b
            } else {
                proof {
                    if exists|i: int|
                        #[trigger] is_first_banana_above(bananas@, y, i) && bananas@[i] <= target {
                        let cbi = choose|i: int|
                            #[trigger] is_first_banana_above(bananas@, y, i) && bananas@[i]
                                <= target;
                        lemma_first_banana_above_unique(bananas@, y, cbi, bi as int);
                    }
                }
                target
            }
        },
        None => {
            proof {
                if exists|i: int|
                    #[trigger] is_first_banana_above(bananas@, y, i) && bananas@[i] <= target {
                    let cbi = choose|i: int|
                        #[trigger] is_first_banana_above(bananas@, y, i) && bananas@[i] <= target;
                    assert(bananas@[cbi] > y);
                }
            }
            target
        },
    }
}

/// Apply one turn to one car.
fn step_car(car: &CarData, bananas: &Vec<u64>) -> (c2: CarData)
    ensures
        c2 == spec_car_step(*car, bananas@),
{
    let decayed = if car.shield > 0 {
        car.shield - 1
    } else {
        0
    };
    let target = car.y.saturating_add(car.speed);
    let y2 = stop_position(bananas, car.y, target);
    CarData { balance: car.balance, addr: car.addr.clone(), y: y2, speed: car.speed, shield: decayed }
}

/// Advance the race by `turns_to_play` turns. Restricted to the race
/// owner; fails atomically when the roster is not full.
pub fn execute_play(state: &mut GameState, caller_is_owner: bool, turns_to_play: u64) -> (r: Result<
    Event,
    ContractError,
>)
    requires
        old(state).wf(),
    ensures
        play_post(*old(state), caller_is_owner, turns_to_play, *final(state), r),
        final(state).wf(),
{
    if !caller_is_owner {
        return Err(ContractError::Unauthorized);
    }
    if !state.can_play() {
        return Err(ContractError::NotEnoughPlayers);
    }
    let ghost pre = *old(state);
    let mut played: u64 = 0;
    while played < turns_to_play
        invariant
            played <= turns_to_play,
            state.all_cars@.len() == pre.all_cars@.len(),
            forall|m: int|
                0 <= m < pre.all_cars@.len() ==> #[trigger] state.all_cars@[m]
                    == spec_car_after_turns(pre.all_cars@[m], pre.bananas@, played as nat),
            state.turns == pre.turns.saturating_add(played),
            state.state == pre.state,
            state.config == pre.config,
            state.bananas == pre.bananas,
            state.sold == pre.sold,
        decreases turns_to_play - played,
    {
        let n = state.all_cars.len();
        let mut j: usize = 0;
        while j < n
            invariant
                j <= n,
                n == state.all_cars@.len(),
                state.all_cars@.len() == pre.all_cars@.len(),
                forall|m: int|
                    0 <= m < j ==> #[trigger] state.all_cars@[m]
                        == spec_car_after_turns(pre.all_cars@[m], pre.bananas@, (played + 1) as nat),
                forall|m: int|
                    j <= m < pre.all_cars@.len() ==> #[trigger] state.all_cars@[m]
                        == spec_car_after_turns(pre.all_cars@[m], pre.bananas@, played as nat),
                played < turns_to_play,
                state.turns == pre.turns.saturating_add(played),
                state.state == pre.state,
                state.config == pre.config,
                state.bananas == pre.bananas,
                state.sold == pre.sold,
            decreases n - j,
        {
            let car = &state.all_cars[j];
            let c2 = step_car(car, &state.bananas);
            state.all_cars.set(j, c2);
            proof {
                assert(spec_car_after_turns(pre.all_cars@[j as int], pre.bananas@, (played + 1) as nat)
                    == spec_car_step(
                    spec_car_after_turns(pre.all_cars@[j as int], pre.bananas@, played as nat),
                    pre.bananas@,
                ));
            }
            j = j + 1;
        }
        state.turns = state.turns.saturating_add(1);
        played = played + 1;
    }
    proof {
        assert forall|a: int, b: int|
            0 <= a < b < state.all_cars@.len() implies state.all_cars@[a].addr@
            != state.all_cars@[b].addr@ by {
            lemma_car_after_turns_keeps_addr(pre.all_cars@[a], pre.bananas@, turns_to_play as nat);
            lemma_car_after_turns_keeps_addr(pre.all_cars@[b], pre.bananas@, turns_to_play as nat);
        }
    }
    Ok(Event::Played { turns: state.turns })
}

/// Whether the cars in `s` stand in non-increasing position order: the
/// leader first.
pub open spec fn sorted_desc_by_y(s: Seq<CarData>) -> bool {
    forall|i: int, j: int| 0 <= i < j < s.len() ==> s[i].y >= s[j].y
}

/// A copy of `cars` sorted by position, leader first.
fn sort_cars_by_y_desc(cars: &Vec<CarData>) -> (sorted: Vec<CarData>)
    ensures
        sorted@.to_multiset() == cars@.to_multiset(),
        sorted@.len() == cars@.len(),
        sorted_desc_by_y(sorted@),
{
    broadcast use vstd::seq_lib::group_to_multiset_ensures;
    broadcast use vstd::multiset::group_multiset_axioms;

    let n = cars.len();
    let mut remaining: Vec<CarData> = Vec::new();
    let mut i: usize = 0;
    while i < n
        invariant
            i <= n,
            n == cars@.len(),
            remaining@ =~= cars@.take(i as int),
        decreases n - i,
    {
        remaining.push(cars[i].duplicate());
        i = i + 1;
    }
    assert(remaining@ =~= cars@);

    let mut sorted: Vec<CarData> = Vec::new();
    while remaining.len() > 0
        invariant
            sorted@.to_multiset().add(remaining@.to_multiset()) =~= cars@.to_multiset(),
            sorted@.len() + remaining@.len() == cars@.len(),
            sorted_desc_by_y(sorted@),
            forall|a: int, b: int|
                0 <= a < sorted@.len() && 0 <= b < remaining@.len() ==> sorted@[a].y
                    >= remaining@[b].y,
        decreases remaining@.len(),
    {
        let mut max_idx: usize = 0;
        let mut k: usize = 1;
        while k < remaining.len()
            invariant
                max_idx < k,
                k <= remaining@.len(),
                remaining@.len() > 0,
                forall|b: int| 0 <= b < k ==> remaining@[max_idx as int].y >= remaining@[b].y,
            decreases remaining@.len() - k,
        {
            if remaining[k].y > remaining[max_idx].y {
                max_idx = k;
            }
            k = k + 1;
        }
        let ghost old_sorted = sorted@;
        let ghost old_remaining = remaining@;
        let c = remaining.remove(max_idx);
        sorted.push(c);
        proof {
            broadcast use vstd::seq_lib::group_to_multiset_ensures;
            broadcast use vstd::multiset::group_multiset_axioms;

            assert(old_remaining.contains(old_remaining[max_idx as int]));
            assert(old_remaining.remove(max_idx as int).to_multiset() =~= old_remaining.to_multiset().remove(c));
            assert(old_sorted.push(c).to_multiset() =~= old_sorted.to_multiset().insert(c));
        }
    }
    proof {
        broadcast use vstd::seq_lib::group_to_multiset_ensures;
        broadcast use vstd::multiset::group_multiset_axioms;

        assert(sorted@.to_multiset() =~= cars@.to_multiset());
    }
    sorted
}

/// The registered identities ordered by their cars' positions, leader
/// first: the identity projection of some position-sorted permutation of
/// the roster.
pub fn get_cars_sorted_by_y(state: &GameState) -> (cars: Vec<String>)
    ensures
        exists|cs: Seq<CarData>|
            {
                &&& #[trigger] cs.to_multiset() == state.all_cars@.to_multiset()
                &&& sorted_desc_by_y(cs)
                &&& cars@.len() == cs.len()
                &&& forall|i: int| 0 <= i < cs.len() ==> cars@[i] == cs[i].addr
            },
{
    let sorted = sort_cars_by_y_desc(&state.all_cars);
    let n = sorted.len();
    let mut out: Vec<String> = Vec::new();
    let mut i: usize = 0;
    while i < n
        invariant
            i <= n,
            n == sorted@.len(),
            out@.len() == i,
            forall|k: int| 0 <= k < i ==> out@[k] == sorted@[k].addr,
        decreases n - i,
    {
        out.push(sorted[i].addr.clone());
        i = i + 1;
    }
    proof {
        assert(sorted@.to_multiset() == state.all_cars@.to_multiset());
    }
    out
}

/// Every car's record ordered by position (leader first), together with the
/// index the given identity holds in that order, if it is registered.
pub fn get_all_car_data_and_find_car(state: &GameState, addr: &String) -> (res: (
    Vec<CarData>,
    Option<u64>,
))
    ensures
        res.0@.to_multiset() == state.all_cars@.to_multiset(),
        res.0@.len() == state.all_cars@.len(),
        sorted_desc_by_y(res.0@),
        (match res.1 {
            Some(i) => is_car_index(res.0@, addr@, i as int),
            None => !is_registered(res.0@, addr@),
        }),
{
    let sorted = sort_cars_by_y_desc(&state.all_cars);
    let found = find_car(&sorted, addr);
    let found_car_index = match found {
        Some(i) => Some(i as u64),
        None => None,
    };
    (sorted, found_car_index)
}

/// The round-robin delegation schedule: the identity to ask for each of
/// the next `turns_to_play` turns. The car at roster index `(turns + j)
/// mod roster size` takes the turn `j` steps ahead; an empty roster has
/// nobody to ask. The host sends each listed car one take-turn request and
/// feeds whatever action it chooses back in as an ordinary command.
pub fn delegation_targets(state: &GameState, turns_to_play: u64) -> (targets: Vec<String>)
    ensures
        state.all_cars@.len() == 0 ==> targets@.len() == 0,
        state.all_cars@.len() > 0 ==> {
            &&& targets@.len() == turns_to_play
            &&& forall|j: int|
                0 <= j < turns_to_play ==> #[trigger] targets@[j] == state.all_cars@[(state.turns
                    + j) % (state.all_cars@.len() as int)].addr
        },
{
    let n = state.all_cars.len();
    let mut targets: Vec<String> = Vec::new();
    if n == 0 {
        return targets;
    }
    let mut j: u64 = 0;
    while j < turns_to_play
        invariant
            0 < n,
            n == state.all_cars@.len(),
            j <= turns_to_play,
            targets@.len() == j,
            forall|k: int|
                0 <= k < j ==> #[trigger] targets@[k] == state.all_cars@[(state.turns + k) % (
                n as int)].addr,
        decreases turns_to_play - j,
    {
        let idx = (((state.turns as u128) + (j as u128)) % (n as u128)) as usize;
        targets.push(state.all_cars[idx].addr.clone());
        j = j + 1;
    }
    targets
}

/// Dispatch one command against the race state. `sender` is the caller's
/// identity and `caller_is_owner` the host's verdict on whether that caller
/// owns the race. Each arm keeps exactly the promise of the operation it
/// dispatches to.
pub fn execute(
    state: &mut GameState,
    sender: &String,
    caller_is_owner: bool,
    msg: ExecuteMsg,
) -> (r: Result<Event, ContractError>)
    requires
        old(state).wf(),
        (match msg {
            ExecuteMsg::Register { car_addrs } => car_addrs@.len()
                == old(state).config.num_players && forall|i: int, j: int|
                0 <= i < j < car_addrs@.len() ==> car_addrs@[i]@ != car_addrs@[j]@,
            _ => true,
        }),
    ensures
        final(state).wf(),
        (match msg {
            ExecuteMsg::Register { car_addrs } => register_post(
                *old(state),
                caller_is_owner,
                car_addrs,
                *final(state),
                r,
            ),
            ExecuteMsg::Reset {} => reset_post(*old(state), caller_is_owner, *final(state), r),
            ExecuteMsg::Play { turns_to_play } => play_post(
                *old(state),
                caller_is_owner,
                turns_to_play,
                *final(state),
                r,
            ),
            ExecuteMsg::BuyShell { amount } => buy_shell_post(
                *old(state),
                *sender,
                amount,
                *final(state),
                r,
            ),
            ExecuteMsg::BuyAccelerate { amount } => buy_accelerate_post(
                *old(state),
                *sender,
                amount,
                *final(state),
                r,
            ),
            ExecuteMsg::BuyBanana {} => buy_banana_post(*old(state), *sender, *final(state), r),
            ExecuteMsg::BuyShield { amount } => buy_shield_post(
                *old(state),
                *sender,
                amount,
                *final(state),
                r,
            ),
            ExecuteMsg::BuySuperShell { amount } => buy_super_shell_post(
                *old(state),
                *sender,
                amount,
                *final(state),
                r,
            ),
        }),
{
    match msg {
        ExecuteMsg::Register { car_addrs } => execute_register(state, caller_is_owner, car_addrs),
        ExecuteMsg::Reset {} => execute_reset(state, caller_is_owner),
        ExecuteMsg::Play { turns_to_play } => execute_play(state, caller_is_owner, turns_to_play),
        ExecuteMsg::BuyShell { amount } => execute_buy_shell(state, sender, amount),
        ExecuteMsg::BuyAccelerate { amount } => execute_buy_accelerate(state, sender, amount),
        ExecuteMsg::BuyBanana {} => execute_buy_banana(state, sender),
        ExecuteMsg::BuyShield { amount } => execute_buy_shield(state, sender, amount),
        ExecuteMsg::BuySuperShell { amount } => execute_buy_super_shell(state, sender, amount),
    }
}

} // verus!
