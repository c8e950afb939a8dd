//! The engine's cross-cutting guarantees, stated in full and proved from
//! the operation contracts. Pricing additivity lives next to the pricing
//! code as [`crate::helpers::lemma_price_for_additive`].

use vstd::prelude::*;

use crate::contract::buy_shell_post;
use crate::contract::buy_super_shell_post;
use crate::contract::is_car_index;
use crate::contract::is_closest_ahead;
use crate::contract::is_closest_fast_ahead;
use crate::contract::is_first_banana_above;
use crate::contract::lemma_car_after_turns_keeps_addr;
use crate::contract::lemma_car_index_unique;
use crate::contract::lemma_closest_ahead_unique;
use crate::contract::lemma_closest_fast_ahead_unique;
use crate::contract::lemma_first_banana_above_unique;
use crate::contract::play_post;
use crate::contract::register_post;
use crate::contract::shell_blocked;
use crate::contract::spec_car_after_turns;
use crate::error::ContractError;
use crate::helpers::spec_cost;
use crate::msg::Event;
use crate::state::CarData;
use crate::state::GameState;

verus! {

/// Law: registration initializes every car with the configured starting
/// balance and zero position, speed and shield charges.
pub proof fn lemma_register_initializes(
    pre: GameState,
    car_addrs: Vec<String>,
    post: GameState,
    r: Result<Event, ContractError>,
    i: int,
)
    requires
        register_post(pre, true, car_addrs, post, r),
        pre.all_cars@.len() != pre.config.num_players,
        0 <= i < car_addrs@.len(),
    ensures
        post.all_cars@[i].addr == car_addrs@[i],
        post.all_cars@[i].balance == pre.config.init_balance,
        post.all_cars@[i].y == 0,
        post.all_cars@[i].speed == 0,
        post.all_cars@[i].shield == 0,
{
}

/// Law: a shell purchase never decreases the caller's own speed or
/// position, and never affects a car behind or at the same position as the
/// caller.
pub proof fn lemma_shell_spares_caller_and_behind(
    pre: GameState,
    sender: String,
    amount: u64,
    post: GameState,
    r: Result<Event, ContractError>,
    ci: int,
    k: int,
)
    requires
        buy_shell_post(pre, sender, amount, post, r),
        is_car_index(pre.all_cars@, sender@, ci),
        0 <= k < pre.all_cars@.len(),
    ensures
        post.all_cars@.len() == pre.all_cars@.len(),
        post.all_cars@[ci].speed == pre.all_cars@[ci].speed,
        post.all_cars@[ci].y == pre.all_cars@[ci].y,
        k != ci && pre.all_cars@[k].y <= pre.all_cars@[ci].y ==> post.all_cars@[k]
            == pre.all_cars@[k],
{
    assert(0 <= ci < pre.all_cars@.len() && pre.all_cars@[ci].addr@ == sender@);
    assert forall|c: int| is_car_index(pre.all_cars@, sender@, c) implies c == ci by {
        lemma_car_index_unique(pre.all_cars@, sender@, c, ci);
    }
    assert forall|t: int, u: int|
        is_closest_ahead(pre.all_cars@, pre.all_cars@[ci].y, t) && is_closest_ahead(
            pre.all_cars@,
            pre.all_cars@[ci].y,
            u,
        ) implies t == u by {
        lemma_closest_ahead_unique(pre.all_cars@, pre.all_cars@[ci].y, t, u);
    }
}

/// Law: a car holding shield charges is never slowed by a shell.
pub proof fn lemma_shell_respects_shield(
    pre: GameState,
    sender: String,
    amount: u64,
    post: GameState,
    r: Result<Event, ContractError>,
    k: int,
)
    requires
        buy_shell_post(pre, sender, amount, post, r),
        0 <= k < pre.all_cars@.len(),
        pre.all_cars@[k].shield > 0,
    ensures
        post.all_cars@.len() == pre.all_cars@.len(),
        post.all_cars@[k].speed == pre.all_cars@[k].speed,
{
}

/// Law: a super shell slows the closest fast car ahead down to the cap
/// even when that car holds shield charges.
pub proof fn lemma_super_shell_ignores_shield(
    pre: GameState,
    sender: String,
    amount: u64,
    post: GameState,
    r: Result<Event, ContractError>,
    ci: int,
    ti: int,
)
    requires
        buy_super_shell_post(pre, sender, amount, post, r),
        amount != 0,
        is_car_index(pre.all_cars@, sender@, ci),
        pre.all_cars@[ci].balance >= spec_cost(
            pre.config.ss_target_price,
            pre.config.ss_per_turn_decrease,
            pre.turns,
            pre.sold.super_shell as int,
            pre.config.ss_sell_per_turn,
            amount as nat,
        ),
        is_closest_fast_ahead(pre.all_cars@, pre.all_cars@[ci].y, pre.config.post_sell_speed, ti),
    ensures
        post.all_cars@.len() == pre.all_cars@.len(),
        post.all_cars@[ti].speed == pre.config.post_sell_speed,
{
    assert(0 <= ci < pre.all_cars@.len() && pre.all_cars@[ci].addr@ == sender@);
    assert forall|c: int| is_car_index(pre.all_cars@, sender@, c) implies c == ci by {
        lemma_car_index_unique(pre.all_cars@, sender@, c, ci);
    }
    assert forall|t: int|
        is_closest_fast_ahead(
            pre.all_cars@,
            pre.all_cars@[ci].y,
            pre.config.post_sell_speed,
            t,
        ) implies t == ti by {
        lemma_closest_fast_ahead_unique(
            pre.all_cars@,
            pre.all_cars@[ci].y,
            pre.config.post_sell_speed,
            t,
            ti,
        );
    }
}

/// Law: a hazard sitting at or before the closest car ahead is consumed by
/// a shell purchase, and nobody's speed changes — even though that car
/// would otherwise have been slowed.
pub proof fn lemma_hazard_blocks_shell(
    pre: GameState,
    sender: String,
    amount: u64,
    post: GameState,
    r: Result<Event, ContractError>,
    ci: int,
    bi: int,
    ti: int,
)
    requires
        buy_shell_post(pre, sender, amount, post, r),
        amount != 0,
        is_car_index(pre.all_cars@, sender@, ci),
        pre.all_cars@[ci].balance >= spec_cost(
            pre.config.shell_target_price,
            pre.config.shell_per_turn_decrease,
            pre.turns,
            pre.sold.shell as int,
            pre.config.shell_sell_per_turn,
            amount as nat,
        ),
        is_first_banana_above(pre.bananas@, pre.all_cars@[ci].y, bi),
        is_closest_ahead(pre.all_cars@, pre.all_cars@[ci].y, ti),
        pre.bananas@[bi] <= pre.all_cars@[ti].y,
    ensures
        post.bananas@ == pre.bananas@.remove(bi),
        post.all_cars@.len() == pre.all_cars@.len(),
        forall|k: int|
            0 <= k < pre.all_cars@.len() ==> (#[trigger] post.all_cars@[k]).speed
                == pre.all_cars@[k].speed,
{
    assert(0 <= ci < pre.all_cars@.len() && pre.all_cars@[ci].addr@ == sender@);
    assert forall|c: int| is_car_index(pre.all_cars@, sender@, c) implies c == ci by {
        lemma_car_index_unique(pre.all_cars@, sender@, c, ci);
    }
    assert(shell_blocked(pre.all_cars@, pre.bananas@, pre.all_cars@[ci].y));
    assert forall|b: int|
        is_first_banana_above(pre.bananas@, pre.all_cars@[ci].y, b) implies b == bi by {
        lemma_first_banana_above_unique(pre.bananas@, pre.all_cars@[ci].y, b, bi);
    }
}

/// Law: a turn advance by `k` increases the turn counter by exactly `k`
/// when the roster is full, and by zero — with an error — when it is not.
pub proof fn lemma_play_turn_count(
    pre: GameState,
    k: u64,
    post: GameState,
    r: Result<Event, ContractError>,
)
    requires
        play_post(pre, true, k, post, r),
        pre.turns + k <= u64::MAX,
    ensures
        pre.all_cars@.len() == pre.config.num_players ==> post.turns == pre.turns + k,
        pre.all_cars@.len() != pre.config.num_players ==> post.turns == pre.turns && r
            == Err::<Event, ContractError>(ContractError::NotEnoughPlayers),
{
}

/// Law: turn delegation is round-robin. After a successful advance of `j`
/// turns from a full roster, the counter reads exactly `j` higher and
/// every roster slot still carries the identity it started with — so the
/// car asked to take the next turn is the one the schedule computed from
/// the initial state predicts, at roster index `(turns + j) mod roster
/// size` (see [`crate::contract::delegation_targets`]).
pub proof fn lemma_round_robin_delegation(
    pre: GameState,
    j: u64,
    post: GameState,
    r: Result<Event, ContractError>,
)
    requires
        play_post(pre, true, j, post, r),
        pre.all_cars@.len() == pre.config.num_players,
        pre.all_cars@.len() > 0,
        pre.turns + j <= u64::MAX,
    ensures
        post.turns == pre.turns + j,
        post.all_cars@.len() == pre.all_cars@.len(),
        forall|k: int|
            0 <= k < post.all_cars@.len() ==> (#[trigger] post.all_cars@[k]).addr
                == pre.all_cars@[k].addr,
{
    assert forall|k: int|
        0 <= k < post.all_cars@.len() implies (#[trigger] post.all_cars@[k]).addr
        == pre.all_cars@[k].addr by {
        lemma_car_after_turns_keeps_addr(pre.all_cars@[k], pre.bananas@, j as nat);
    }
}

/// Law: a car's position never decreases as turns pass.
pub proof fn lemma_position_monotonic(car: CarData, bananas: Seq<u64>, k: nat)
    ensures
        spec_car_after_turns(car, bananas, k).y >= car.y,
    decreases k,
{
    if k > 0 {
        lemma_position_monotonic(car, bananas, (k - 1) as nat);
    }
}

} // verus!
