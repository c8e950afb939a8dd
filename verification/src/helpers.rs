//! The dynamic-pricing economy and small track helpers.
//!
//! The per-unit price follows a Dutch-auction curve with demand feedback,
//! computed in fixed-point integer arithmetic: the target price, scaled
//! once by the per-turn decay factor for every whole turn the race is
//! ahead of the cumulative sales, and once by its inverse for every whole
//! turn the sales are ahead of the race. On the target pace the price is
//! exactly the target; it never rises as turns pass and never falls as
//! sales accumulate (see the pricing-law lemmas below).
//!
//! `price_for`-style cost functions price each unit independently along the
//! curve and sum the results: the i-th unit is priced as if `sold + i`
//! units had already been sold. The cost of a batch is therefore a
//! discrete integral along the curve, which makes pricing additive (see
//! [`lemma_price_for_additive`]).

use vstd::arithmetic::div_mod::lemma_div_is_ordered;
use vstd::arithmetic::div_mod::lemma_div_multiples_vanish;
use vstd::arithmetic::div_mod::lemma_div_pos_is_pos;
use vstd::arithmetic::mul::lemma_mul_inequality;
use vstd::arithmetic::mul::lemma_mul_nonnegative;
use vstd::prelude::*;

use crate::state::GameState;

verus! {

/// The fixed-point scale of the pricing curve: factors are wads, fractions
/// of this denominator.
pub const WAD: u64 = 1_000_000_000;

/// The per-turn survival factor of the curve, as a wad: what remains of a
/// price after one turn of decay. A decrease of the whole scale or more
/// floors the factor at zero.
pub open spec fn spec_decay_factor(per_turn_price_decrease: u64) -> u64 {
    if per_turn_price_decrease >= WAD {
        0u64
    } else {
        (WAD - per_turn_price_decrease) as u64
    }
}

/// One turn of decay: scale `x` by the wad factor `f`, rounding down.
pub open spec fn decay_once(x: int, f: u64) -> int {
    x * f / (WAD as int)
}

/// One turn of demand boost: scale `x` by the inverse of the wad factor
/// `f`, rounding down and saturating at the largest representable price. A
/// factor of zero pins the boosted price at that ceiling.
pub open spec fn boost_once(x: int, f: u64) -> int {
    if f == 0 {
        u64::MAX as int
    } else if x * (WAD as int) / (f as int) > u64::MAX as int {
        u64::MAX as int
    } else {
        x * (WAD as int) / (f as int)
    }
}

/// `n` turns of decay.
pub open spec fn decay_pow(x: int, f: u64, n: nat) -> int
    decreases n,
{
    if n == 0 {
        x
    } else {
        decay_once(decay_pow(x, f, (n - 1) as nat), f)
    }
}

/// `n` turns of demand boost.
pub open spec fn boost_pow(x: int, f: u64, n: nat) -> int
    decreases n,
{
    if n == 0 {
        x
    } else {
        boost_once(boost_pow(x, f, (n - 1) as nat), f)
    }
}

/// How many whole turns of the target pace the cumulative sales cover. A
/// zero target rate schedules no sales at all.
pub open spec fn spec_schedule(sold: u64, sell_per_turn_wad: u64) -> int {
    if sell_per_turn_wad == 0 {
        0
    } else {
        sold as int / sell_per_turn_wad as int
    }
}

/// The per-unit price of an action: the target price decayed once for
/// every whole turn the race is ahead of the sales, and boosted once for
/// every whole turn the sales are ahead of the race. On the target pace
/// the price is exactly the target; ahead of pace it sits at or above it,
/// behind at or below (the schedule moves in whole turns, so a surplus or
/// deficit smaller than one turn's pace rounds to the target itself).
pub open spec fn spec_action_price(
    target_price: u64,
    per_turn_price_decrease: u64,
    turn_since_start: u64,
    sold: u64,
    sell_per_turn_wad: u64,
) -> int {
    let f = spec_decay_factor(per_turn_price_decrease);
    let sched = spec_schedule(sold, sell_per_turn_wad);
    if turn_since_start >= sched {
        decay_pow(target_price as int, f, (turn_since_start - sched) as nat)
    } else {
        boost_pow(target_price as int, f, (sched - turn_since_start) as nat)
    }
}

/// A mathematical sales count clamped to the ledger's range: the sold
/// counters themselves saturate at `u64::MAX`.
pub open spec fn clamp_sold(sold: int) -> u64 {
    if sold >= u64::MAX as int {
        u64::MAX
    } else if sold <= 0 {
        0u64
    } else {
        sold as u64
    }
}

/// The cost of buying `amount` more units when `sold` units were already
/// sold: the sum of the per-unit prices at `sold`, `sold + 1`, ...,
/// `sold + amount - 1`.
pub open spec fn spec_price_for(
    target_price: u64,
    per_turn_price_decrease: u64,
    turn_since_start: u64,
    sold: int,
    sell_per_turn_wad: u64,
    amount: nat,
) -> int
    decreases amount,
{
    if amount == 0 {
        0
    } else {
        spec_price_for(
            target_price,
            per_turn_price_decrease,
            turn_since_start,
            sold,
            sell_per_turn_wad,
            (amount - 1) as nat,
        ) + spec_action_price(
            target_price,
            per_turn_price_decrease,
            turn_since_start,
            clamp_sold(sold + amount - 1),
            sell_per_turn_wad,
        )
    }
}

/// The price of a batch as a balance deduction: the discrete integral,
/// saturated at the largest representable balance.
pub open spec fn spec_cost(
    target_price: u64,
    per_turn_price_decrease: u64,
    turn_since_start: u64,
    sold: int,
    sell_per_turn_wad: u64,
    amount: nat,
) -> u64 {
    let c = spec_price_for(
        target_price,
        per_turn_price_decrease,
        turn_since_start,
        sold,
        sell_per_turn_wad,
        amount,
    );
    if c >= u64::MAX as int {
        u64::MAX
    } else if c <= 0 {
        0u64
    } else {
        c as u64
    }
}

proof fn lemma_decay_once_props(x: int, f: u64)
    requires
        0 <= x,
        f <= WAD,
    ensures
        0 <= decay_once(x, f) <= x,
{
    lemma_mul_nonnegative(x, f as int);
    lemma_div_pos_is_pos(x * f, WAD as int);
    lemma_mul_inequality(f as int, WAD as int, x);
    lemma_div_is_ordered(x * f, x * (WAD as int), WAD as int);
    lemma_div_multiples_vanish(x, WAD as int);
}

proof fn lemma_boost_once_props(x: int, f: u64)
    requires
        0 <= x <= u64::MAX,
        f <= WAD,
    ensures
        x <= boost_once(x, f) <= u64::MAX,
{
    if f > 0 {
        lemma_mul_inequality(f as int, WAD as int, x);
        lemma_div_is_ordered(x * f, x * (WAD as int), f as int);
        lemma_div_multiples_vanish(x, f as int);
    }
}

proof fn lemma_decay_pow_bounds(x: int, f: u64, n: nat)
    requires
        0 <= x,
        f <= WAD,
    ensures
        0 <= decay_pow(x, f, n) <= x,
    decreases n,
{
    if n > 0 {
        lemma_decay_pow_bounds(x, f, (n - 1) as nat);
        lemma_decay_once_props(decay_pow(x, f, (n - 1) as nat), f);
    }
}

proof fn lemma_boost_pow_bounds(x: int, f: u64, n: nat)
    requires
        0 <= x <= u64::MAX,
        f <= WAD,
    ensures
        x <= boost_pow(x, f, n) <= u64::MAX,
    decreases n,
{
    if n > 0 {
        lemma_boost_pow_bounds(x, f, (n - 1) as nat);
        lemma_boost_once_props(boost_pow(x, f, (n - 1) as nat), f);
    }
}

proof fn lemma_decay_pow_antitone(x: int, f: u64, n1: nat, n2: nat)
    requires
        0 <= x,
        f <= WAD,
        n1 <= n2,
    ensures
        decay_pow(x, f, n2) <= decay_pow(x, f, n1),
    decreases n2,
{
    if n1 < n2 {
        lemma_decay_pow_antitone(x, f, n1, (n2 - 1) as nat);
        lemma_decay_pow_bounds(x, f, (n2 - 1) as nat);
        lemma_decay_once_props(decay_pow(x, f, (n2 - 1) as nat), f);
    }
}

proof fn lemma_boost_pow_monotone(x: int, f: u64, n1: nat, n2: nat)
    requires
        0 <= x <= u64::MAX,
        f <= WAD,
        n1 <= n2,
    ensures
        boost_pow(x, f, n1) <= boost_pow(x, f, n2),
    decreases n2,
{
    if n1 < n2 {
        lemma_boost_pow_monotone(x, f, n1, (n2 - 1) as nat);
        lemma_boost_pow_bounds(x, f, (n2 - 1) as nat);
        lemma_boost_once_props(boost_pow(x, f, (n2 - 1) as nat), f);
    }
}

proof fn lemma_decay_pow_stays_zero(x: int, f: u64, n1: nat, n2: nat)
    requires
        n1 <= n2,
        decay_pow(x, f, n1) == 0,
    ensures
        decay_pow(x, f, n2) == 0,
    decreases n2,
{
    if n1 < n2 {
        lemma_decay_pow_stays_zero(x, f, n1, (n2 - 1) as nat);
    }
}

proof fn lemma_boost_pow_stays_max(x: int, f: u64, n1: nat, n2: nat)
    requires
        n1 <= n2,
        f <= WAD,
        boost_pow(x, f, n1) == u64::MAX,
    ensures
        boost_pow(x, f, n2) == u64::MAX,
    decreases n2,
{
    if n1 < n2 {
        lemma_boost_pow_stays_max(x, f, n1, (n2 - 1) as nat);
        lemma_boost_once_props(u64::MAX as int, f);
    }
}

proof fn lemma_decay_pow_identity(x: int, n: nat)
    ensures
        decay_pow(x, WAD, n) == x,
    decreases n,
{
    if n > 0 {
        lemma_decay_pow_identity(x, (n - 1) as nat);
        lemma_div_multiples_vanish(x, WAD as int);
    }
}

proof fn lemma_boost_pow_identity(x: int, n: nat)
    requires
        0 <= x <= u64::MAX,
    ensures
        boost_pow(x, WAD, n) == x,
    decreases n,
{
    if n > 0 {
        lemma_boost_pow_identity(x, (n - 1) as nat);
        lemma_div_multiples_vanish(x, WAD as int);
    }
}

/// The per-unit price always fits a balance: it lies between zero and
/// `u64::MAX`.
pub proof fn lemma_action_price_bounds(
    target_price: u64,
    per_turn_price_decrease: u64,
    turn_since_start: u64,
    sold: u64,
    sell_per_turn_wad: u64,
)
    ensures
        0 <= spec_action_price(
            target_price,
            per_turn_price_decrease,
            turn_since_start,
            sold,
            sell_per_turn_wad,
        ) <= u64::MAX,
{
    let f = spec_decay_factor(per_turn_price_decrease);
    let sched = spec_schedule(sold, sell_per_turn_wad);
    if sell_per_turn_wad != 0 {
        lemma_div_pos_is_pos(sold as int, sell_per_turn_wad as int);
    }
    if turn_since_start >= sched {
        lemma_decay_pow_bounds(target_price as int, f, (turn_since_start - sched) as nat);
    } else {
        lemma_boost_pow_bounds(target_price as int, f, (sched - turn_since_start) as nat);
    }
}

/// A batch never costs a negative amount.
pub proof fn lemma_price_for_nonneg(
    target_price: u64,
    per_turn_price_decrease: u64,
    turn_since_start: u64,
    sold: int,
    sell_per_turn_wad: u64,
    amount: nat,
)
    ensures
        0 <= spec_price_for(
            target_price,
            per_turn_price_decrease,
            turn_since_start,
            sold,
            sell_per_turn_wad,
            amount,
        ),
    decreases amount,
{
    if amount > 0 {
        lemma_price_for_nonneg(
            target_price,
            per_turn_price_decrease,
            turn_since_start,
            sold,
            sell_per_turn_wad,
            (amount - 1) as nat,
        );
        lemma_action_price_bounds(
            target_price,
            per_turn_price_decrease,
            turn_since_start,
            clamp_sold(sold + amount - 1),
            sell_per_turn_wad,
        );
    }
}

/// Pricing law: on the target pace the price is exactly the target price —
/// the decay of elapsed turns is exactly offset by the demand of the
/// scheduled sales.
pub proof fn lemma_price_on_pace(
    target_price: u64,
    per_turn_price_decrease: u64,
    turn_since_start: u64,
    sold: u64,
    sell_per_turn_wad: u64,
)
    requires
        sell_per_turn_wad > 0,
        sold == sell_per_turn_wad * turn_since_start,
    ensures
        spec_action_price(
            target_price,
            per_turn_price_decrease,
            turn_since_start,
            sold,
            sell_per_turn_wad,
        ) == target_price,
{
    lemma_div_multiples_vanish(turn_since_start as int, sell_per_turn_wad as int);
}

/// Pricing law: the price never rises as turns elapse.
pub proof fn lemma_price_decays_over_time(
    target_price: u64,
    per_turn_price_decrease: u64,
    t1: u64,
    t2: u64,
    sold: u64,
    sell_per_turn_wad: u64,
)
    requires
        t1 <= t2,
    ensures
        spec_action_price(target_price, per_turn_price_decrease, t2, sold, sell_per_turn_wad)
            <= spec_action_price(
            target_price,
            per_turn_price_decrease,
            t1,
            sold,
            sell_per_turn_wad,
        ),
{
    let f = spec_decay_factor(per_turn_price_decrease);
    let sched = spec_schedule(sold, sell_per_turn_wad);
    if sell_per_turn_wad != 0 {
        lemma_div_pos_is_pos(sold as int, sell_per_turn_wad as int);
    }
    if t1 >= sched {
        lemma_decay_pow_antitone(target_price as int, f, (t1 - sched) as nat, (t2 - sched) as nat);
    } else if t2 < sched {
        lemma_boost_pow_monotone(target_price as int, f, (sched - t2) as nat, (sched - t1) as nat);
    } else {
        lemma_boost_pow_bounds(target_price as int, f, (sched - t1) as nat);
        lemma_decay_pow_bounds(target_price as int, f, (t2 - sched) as nat);
    }
}

/// Pricing law: the price never falls as sales accumulate.
pub proof fn lemma_price_rises_with_sales(
    target_price: u64,
    per_turn_price_decrease: u64,
    turn_since_start: u64,
    sold1: u64,
    sold2: u64,
    sell_per_turn_wad: u64,
)
    requires
        sold1 <= sold2,
    ensures
        spec_action_price(
            target_price,
            per_turn_price_decrease,
            turn_since_start,
            sold1,
            sell_per_turn_wad,
        ) <= spec_action_price(
            target_price,
            per_turn_price_decrease,
            turn_since_start,
            sold2,
            sell_per_turn_wad,
        ),
{
    let f = spec_decay_factor(per_turn_price_decrease);
    let sched1 = spec_schedule(sold1, sell_per_turn_wad);
    let sched2 = spec_schedule(sold2, sell_per_turn_wad);
    if sell_per_turn_wad != 0 {
        lemma_div_pos_is_pos(sold1 as int, sell_per_turn_wad as int);
        lemma_div_pos_is_pos(sold2 as int, sell_per_turn_wad as int);
        lemma_div_is_ordered(sold1 as int, sold2 as int, sell_per_turn_wad as int);
    }
    if turn_since_start >= sched2 {
        lemma_decay_pow_antitone(
            target_price as int,
            f,
            (turn_since_start - sched2) as nat,
            (turn_since_start - sched1) as nat,
        );
    } else if turn_since_start < sched1 {
        lemma_boost_pow_monotone(
            target_price as int,
            f,
            (sched1 - turn_since_start) as nat,
            (sched2 - turn_since_start) as nat,
        );
    } else {
        lemma_decay_pow_bounds(target_price as int, f, (turn_since_start - sched1) as nat);
        lemma_boost_pow_bounds(target_price as int, f, (sched2 - turn_since_start) as nat);
    }
}

/// Pricing law: sales running at or ahead of the target pace hold the price
/// at or above the target.
pub proof fn lemma_price_at_least_target_when_ahead(
    target_price: u64,
    per_turn_price_decrease: u64,
    turn_since_start: u64,
    sold: u64,
    sell_per_turn_wad: u64,
)
    requires
        sell_per_turn_wad > 0,
        sold >= sell_per_turn_wad * turn_since_start,
    ensures
        spec_action_price(
            target_price,
            per_turn_price_decrease,
            turn_since_start,
            sold,
            sell_per_turn_wad,
        ) >= target_price,
{
    let f = spec_decay_factor(per_turn_price_decrease);
    let sched = spec_schedule(sold, sell_per_turn_wad);
    lemma_div_is_ordered(
        sell_per_turn_wad as int * turn_since_start as int,
        sold as int,
        sell_per_turn_wad as int,
    );
    lemma_div_multiples_vanish(turn_since_start as int, sell_per_turn_wad as int);
    if turn_since_start < sched {
        lemma_boost_pow_bounds(target_price as int, f, (sched - turn_since_start) as nat);
    }
}

/// Pricing law: sales running at or behind the target pace hold the price
/// at or below the target.
pub proof fn lemma_price_at_most_target_when_behind(
    target_price: u64,
    per_turn_price_decrease: u64,
    turn_since_start: u64,
    sold: u64,
    sell_per_turn_wad: u64,
)
    requires
        sell_per_turn_wad > 0,
        sold <= sell_per_turn_wad * turn_since_start,
    ensures
        spec_action_price(
            target_price,
            per_turn_price_decrease,
            turn_since_start,
            sold,
            sell_per_turn_wad,
        ) <= target_price,
{
    let f = spec_decay_factor(per_turn_price_decrease);
    let sched = spec_schedule(sold, sell_per_turn_wad);
    lemma_div_pos_is_pos(sold as int, sell_per_turn_wad as int);
    lemma_div_is_ordered(
        sold as int,
        sell_per_turn_wad as int * turn_since_start as int,
        sell_per_turn_wad as int,
    );
    lemma_div_multiples_vanish(turn_since_start as int, sell_per_turn_wad as int);
    lemma_decay_pow_bounds(target_price as int, f, (turn_since_start - sched) as nat);
}

/// Law: pricing is additive. Buying `n + m` units at once costs exactly as
/// much as buying `n` units and then `m` more with the sold counter advanced
/// by `n`.
pub proof fn lemma_price_for_additive(
    target_price: u64,
    per_turn_price_decrease: u64,
    turn_since_start: u64,
    sold: int,
    sell_per_turn_wad: u64,
    n: nat,
    m: nat,
)
    ensures
        spec_price_for(
            target_price,
            per_turn_price_decrease,
            turn_since_start,
            sold,
            sell_per_turn_wad,
            n + m,
        ) == spec_price_for(
            target_price,
            per_turn_price_decrease,
            turn_since_start,
            sold,
            sell_per_turn_wad,
            n,
        ) + spec_price_for(
            target_price,
            per_turn_price_decrease,
            turn_since_start,
            sold + n,
            sell_per_turn_wad,
            m,
        ),
    decreases m,
{
    if m > 0 {
        lemma_price_for_additive(
            target_price,
            per_turn_price_decrease,
            turn_since_start,
            sold,
            sell_per_turn_wad,
            n,
            (m - 1) as nat,
        );
    }
}

/// Run `e` turns of decay on `x0`, stopping early once the price hits a
/// fixed point.
fn decay_steps(x0: u64, f: u64, e: u64) -> (x: u64)
    requires
        f <= WAD,
    ensures
        x as int == decay_pow(x0 as int, f, e as nat),
{
    if f == WAD {
        proof {
            lemma_decay_pow_identity(x0 as int, e as nat);
        }
        return x0;
    }
    let mut x = x0;
    let mut i: u64 = 0;
    while i < e && x != 0
        invariant
            i <= e,
            f <= WAD,
            x as int == decay_pow(x0 as int, f, i as nat),
        decreases e - i,
    {
        proof {
            lemma_decay_pow_bounds(x0 as int, f, i as nat);
            lemma_decay_once_props(x as int, f);
            assert((x as int) * (f as int) <= (u64::MAX as int) * (WAD as int)) by (nonlinear_arith)
                requires
                    x <= u64::MAX,
                    f <= WAD,
                    0 <= x,
                    0 <= f,
            ;
        }
        x = ((x as u128) * (f as u128) / (WAD as u128)) as u64;
        i = i + 1;
    }
    if x == 0 {
        proof {
            lemma_decay_pow_stays_zero(x0 as int, f, i as nat, e as nat);
        }
    }
    x
}

/// Run `m` turns of demand boost on `x0`, stopping early once the price
/// hits the ceiling.
fn boost_steps(x0: u64, f: u64, m: u64) -> (x: u64)
    requires
        f <= WAD,
    ensures
        x as int == boost_pow(x0 as int, f, m as nat),
{
    if f == WAD {
        proof {
            lemma_boost_pow_identity(x0 as int, m as nat);
        }
        return x0;
    }
    let mut x = x0;
    let mut i: u64 = 0;
    while i < m && x != u64::MAX
        invariant
            i <= m,
            f <= WAD,
            x as int == boost_pow(x0 as int, f, i as nat),
        decreases m - i,
    {
        if f == 0 {
            x = u64::MAX;
        } else {
            proof {
                assert((x as int) * (WAD as int) <= (u64::MAX as int) * (WAD as int))
                    by (nonlinear_arith)
                    requires
                        x <= u64::MAX,
                        0 <= x,
                ;
            }
            let next = (x as u128) * (WAD as u128) / (f as u128);
            if next > u64::MAX as u128 {
                x = u64::MAX;
            } else {
                x = next as u64;
            }
        }
        i = i + 1;
    }
    if x == u64::MAX {
        proof {
            lemma_boost_pow_stays_max(x0 as int, f, i as nat, m as nat);
        }
    }
    x
}

/// The price of the single unit of an action sold when `sold` units were
/// already sold and `turn_since_start` turns have elapsed.
pub fn compute_action_price(
    target_price: u64,
    per_turn_price_decrease: u64,
    turn_since_start: u64,
    sold: u64,
    sell_per_turn_wad: u64,
) -> (price: u64)
    ensures
        price == spec_action_price(
            target_price,
            per_turn_price_decrease,
            turn_since_start,
            sold,
            sell_per_turn_wad,
        ),
{
    let f = if per_turn_price_decrease >= WAD {
        0
    } else {
        WAD - per_turn_price_decrease
    };
    let sched = if sell_per_turn_wad == 0 {
        0
    } else {
        sold / sell_per_turn_wad
    };
    if turn_since_start >= sched {
        decay_steps(target_price, f, turn_since_start - sched)
    } else {
        boost_steps(target_price, f, sched - turn_since_start)
    }
}

/// Sum the per-unit prices of `amount` units starting at `sold` already
/// sold, saturating at the largest representable balance. The running
/// counter saturates like the ledger's own.
fn sum_action_prices(
    target_price: u64,
    per_turn_price_decrease: u64,
    turn_since_start: u64,
    sold: u64,
    sell_per_turn_wad: u64,
    amount: u64,
) -> (cost: u64)
    ensures
        cost == spec_cost(
            target_price,
            per_turn_price_decrease,
            turn_since_start,
            sold as int,
            sell_per_turn_wad,
            amount as nat,
        ),
{
    let mut sum: u64 = 0;
    let mut i: u64 = 0;
    while i < amount
        invariant
            i <= amount,
            sum == spec_cost(
                target_price,
                per_turn_price_decrease,
                turn_since_start,
                sold as int,
                sell_per_turn_wad,
                i as nat,
            ),
        decreases amount - i,
    {
        proof {
            lemma_price_for_nonneg(
                target_price,
                per_turn_price_decrease,
                turn_since_start,
                sold as int,
                sell_per_turn_wad,
                i as nat,
            );
            lemma_action_price_bounds(
                target_price,
                per_turn_price_decrease,
                turn_since_start,
                sold.saturating_add(i),
                sell_per_turn_wad,
            );
        }
        let unit = compute_action_price(
            target_price,
            per_turn_price_decrease,
            turn_since_start,
            sold.saturating_add(i),
            sell_per_turn_wad,
        );
        sum = sum.saturating_add(unit);
        i = i + 1;
    }
    sum
}

/// The cost of `amount` more units of Accelerate when `sold` were already
/// sold.
pub fn get_accel_cost(state: &GameState, amount: u64, sold: u64) -> (cost: u64)
    ensures
        cost == spec_cost(
            state.config.accel_target_price,
            state.config.accel_per_turn_decrease,
            state.turns,
            sold as int,
            state.config.accel_sell_per_turn,
            amount as nat,
        ),
{
    sum_action_prices(
        state.config.accel_target_price,
        state.config.accel_per_turn_decrease,
        state.turns,
        sold,
        state.config.accel_sell_per_turn,
        amount,
    )
}

/// The cost of `amount` more units of Shell when `sold` were already sold.
pub fn get_shell_cost(state: &GameState, amount: u64, sold: u64) -> (cost: u64)
    ensures
        cost == spec_cost(
            state.config.shell_target_price,
            state.config.shell_per_turn_decrease,
            state.turns,
            sold as int,
            state.config.shell_sell_per_turn,
            amount as nat,
        ),
{
    sum_action_prices(
        state.config.shell_target_price,
        state.config.shell_per_turn_decrease,
        state.turns,
        sold,
        state.config.shell_sell_per_turn,
        amount,
    )
}

/// The cost of `amount` more units of SuperShell when `sold` were already
/// sold.
pub fn get_super_shell_cost(state: &GameState, amount: u64, sold: u64) -> (cost: u64)
    ensures
        cost == spec_cost(
            state.config.ss_target_price,
            state.config.ss_per_turn_decrease,
            state.turns,
            sold as int,
            state.config.ss_sell_per_turn,
            amount as nat,
        ),
{
    sum_action_prices(
        state.config.ss_target_price,
        state.config.ss_per_turn_decrease,
        state.turns,
        sold,
        state.config.ss_sell_per_turn,
        amount,
    )
}

/// The cost of one more Banana when `sold` were already sold.
pub fn get_banana_cost(state: &GameState, sold: u64) -> (cost: u64)
    ensures
        cost == spec_action_price(
            state.config.banana_target_price,
            state.config.banana_per_turn_decrease,
            state.turns,
            sold,
            state.config.banana_sell_per_turn,
        ),
{
    compute_action_price(
        state.config.banana_target_price,
        state.config.banana_per_turn_decrease,
        state.turns,
        sold,
        state.config.banana_sell_per_turn,
    )
}

/// The cost of `amount` more units of Shield when `sold` were already sold.
pub fn get_shield_cost(state: &GameState, amount: u64, sold: u64) -> (cost: u64)
    ensures
        cost == spec_cost(
            state.config.shield_target_price,
            state.config.shield_per_turn_decrease,
            state.turns,
            sold as int,
            state.config.shield_sell_per_turn,
            amount as nat,
        ),
{
    sum_action_prices(
        state.config.shield_target_price,
        state.config.shield_per_turn_decrease,
        state.turns,
        sold,
        state.config.shield_sell_per_turn,
        amount,
    )
}

/// Whether `s` is sorted in non-decreasing order.
pub open spec fn sorted_asc(s: Seq<u64>) -> bool {
    forall|i: int, j: int| 0 <= i < j < s.len() ==> s[i] <= s[j]
}

/// The hazards of the track in ascending position order: a sorted copy of
/// the banana list.
pub fn get_bananas_sorted_by_y(state: &GameState) -> (sorted: Vec<u64>)
    ensures
        sorted@.to_multiset() == state.bananas@.to_multiset(),
        sorted@.len() == state.bananas@.len(),
        sorted_asc(sorted@),
{
    broadcast use vstd::seq_lib::group_to_multiset_ensures;
    broadcast use vstd::multiset::group_multiset_axioms;

    let n = state.bananas.len();
    let mut remaining: Vec<u64> = Vec::new();
    let mut i: usize = 0;
    while i < n
        invariant
            i <= n,
            n == state.bananas@.len(),
            remaining@ =~= state.bananas@.take(i as int),
        decreases n - i,
    {
        remaining.push(state.bananas[i]);
        i = i + 1;
    }
    assert(remaining@ =~= state.bananas@);

    let mut sorted: Vec<u64> = Vec::new();
    while remaining.len() > 0
        invariant
            sorted@.to_multiset().add(remaining@.to_multiset()) =~= state.bananas@.to_multiset(),
            sorted@.len() + remaining@.len() == state.bananas@.len(),
            sorted_asc(sorted@),
            forall|a: int, b: int|
                0 <= a < sorted@.len() && 0 <= b < remaining@.len()
                    ==> sorted@[a] <= remaining@[b],
        decreases remaining@.len(),
    {
        let mut min_idx: usize = 0;
        let mut k: usize = 1;
        while k < remaining.len()
            invariant
                min_idx < k,
                k <= remaining@.len(),
                remaining@.len() > 0,
                forall|b: int| 0 <= b < k ==> remaining@[min_idx as int] <= remaining@[b],
            decreases remaining@.len() - k,
        {
            if remaining[k] < remaining[min_idx] {
                min_idx = k;
            }
            k = k + 1;
        }
        let ghost old_sorted = sorted@;
        let ghost old_remaining = remaining@;
        let v = remaining.remove(min_idx);
        sorted.push(v);
        proof {
            broadcast use vstd::seq_lib::group_to_multiset_ensures;
            broadcast use vstd::multiset::group_multiset_axioms;

            assert(old_remaining.contains(old_remaining[min_idx as int]));
            assert(old_remaining.remove(min_idx as int).to_multiset() =~= old_remaining.to_multiset().remove(v));
            assert(old_sorted.push(v).to_multiset() =~= old_sorted.to_multiset().insert(v));
        }
    }
    assert(sorted@.to_multiset() =~= state.bananas@.to_multiset());
    sorted
}

} // verus!
