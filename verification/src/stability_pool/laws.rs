//! What holds of the stability pool over several calls.
use crate::arith;
use crate::error;
use crate::error::Error;
use crate::stability_pool::model;
use crate::stability_pool::model::{Call, StabilityState};
use crate::stability_pool::{Deposit, Effect, PoolState, EPOCH_FLOOR, PRECISION};
use crate::sums;
use crate::types::{Address, Context, WasmHash};
use vstd::prelude::*;

verus! {

/// The greater of two numbers has the greater quotient.
proof fn lemma_quot_ordered(a: int, b: int, c: int)
    requires
        0 <= a <= b,
        c > 0,
    ensures
        0 <= arith::quot(a, c) <= arith::quot(b, c),
{
    arith::lemma_quot_range(a, c);
    arith::lemma_quot_range(b, c);
    let q = arith::quot(a, c);
    let r = arith::quot(b, c);
    assert(q <= r) by (nonlinear_arith)
        requires
            q * c <= a <= b < (r + 1) * c,
            c > 0,
    ;
}

/// A stake is the value over the product, rounded up.
pub proof fn lemma_stake(value: int, p: int)
    requires
        value >= 0,
        1 <= p <= PRECISION,
    ensures
        model::stake(value, p) >= value,
        value * PRECISION <= model::stake(value, p) * p < value * PRECISION + p,
        value == 0 ==> model::stake(value, p) == 0,
{
    let n = value * PRECISION + p - 1;
    let q = model::stake(value, p);
    assert(value * PRECISION >= 0) by (nonlinear_arith)
        requires
            value >= 0,
    ;
    arith::lemma_quot_range(n, p);
    assert((q + 1) * p == q * p + p && 0 * p == 0) by (nonlinear_arith);
    assert(q >= value) by (nonlinear_arith)
        requires
            value * PRECISION <= q * p,
            q >= 0,
            1 <= p <= PRECISION,
    ;
    assert(value == 0 ==> q == 0) by (nonlinear_arith)
        requires
            q * p < value * PRECISION + p,
            q >= 0,
            p >= 1,
    ;
}

/// The stake of the greater value is the greater.
pub proof fn lemma_stake_ordered(value: int, more: int, p: int)
    requires
        0 <= value <= more,
        1 <= p <= PRECISION,
    ensures
        0 <= model::stake(value, p) <= model::stake(more, p),
{
    assert(0 <= value * PRECISION <= more * PRECISION) by (nonlinear_arith)
        requires
            0 <= value <= more,
    ;
    lemma_quot_ordered(value * PRECISION + p - 1, more * PRECISION + p - 1, p);
}

/// A deposit that was just made is whole.
proof fn lemma_fresh(dep: Deposit, pool: PoolState)
    requires
        dep.snapshot == pool.snapshot(),
        EPOCH_FLOOR <= pool.p <= PRECISION,
        dep.initial_value >= 0,
    ensures
        model::compounded(dep, pool) == Ok::<i128, Error>(dep.initial_value),
{
    let p = pool.p as int;
    let v = dep.initial_value as int;
    assert(p * PRECISION >= 0 && (p * PRECISION) / p == PRECISION && p * PRECISION <= PRECISION
        * PRECISION) by (nonlinear_arith)
        requires
            1 <= p <= PRECISION,
    ;
    assert(v * PRECISION >= 0 && (v * PRECISION) / (PRECISION as int) == v) by (nonlinear_arith)
        requires
            v >= 0,
    ;
}

/// What is left of a deposit can be computed, and is no more than was put in;
/// renewed, it has no greater stake.
pub proof fn lemma_held(s: StabilityState, a: Address)
    requires
        s.sound(),
        s.deposits.contains_key(a),
    ensures
        model::compounded(s.deposits[a], s.pool->0) matches Ok(held) && {
            &&& 0 <= held <= s.deposits[a].initial_value
            &&& 0 <= model::stake(held as int, s.pool->0.p as int) <= s.stake_of(a)
        },
{
    assert(s.deposit_sound(a));
    let dep = s.deposits[a];
    let p = s.pool->0.p as int;
    let base = dep.snapshot.p_value as int;
    let value = dep.initial_value as int;
    lemma_stake(0, p);
    if dep.snapshot.epoch == s.pool->0.epoch {
        let ratio = arith::quot(p * PRECISION, base);
        assert(0 <= p * PRECISION <= base * PRECISION <= PRECISION * PRECISION && (base * PRECISION)
            / base == PRECISION) by (nonlinear_arith)
            requires
                0 <= p <= base <= PRECISION,
                base >= 1,
        ;
        lemma_quot_ordered(p * PRECISION, base * PRECISION, base);
        arith::lemma_quot_range(p * PRECISION, base);
        assert(0 <= value * ratio <= value * PRECISION && (value * PRECISION) / (PRECISION as int)
            == value) by (nonlinear_arith)
            requires
                value >= 0,
                0 <= ratio <= PRECISION,
        ;
        lemma_quot_ordered(value * ratio, value * PRECISION, PRECISION as int);
        arith::lemma_quot_range(value * ratio, PRECISION as int);
        let held = arith::quot(value * ratio, PRECISION as int);
        let whole = model::stake(value, base);
        let own = model::stake(held, p);
        lemma_stake(value, base);
        lemma_stake(held, p);
        assert(held * PRECISION <= whole * p) by (nonlinear_arith)
            requires
                held * PRECISION <= value * ratio,
                ratio * base <= p * PRECISION,
                value * PRECISION <= whole * base,
                value >= 0,
                p >= 0,
                base >= 1,
        {
            assert((held * PRECISION) * base <= (value * ratio) * base);
            assert((value * ratio) * base == value * (ratio * base));
            assert(value * (ratio * base) <= value * (p * PRECISION));
            assert(value * (p * PRECISION) == (value * PRECISION) * p);
            assert((value * PRECISION) * p <= (whole * base) * p);
            assert((whole * base) * p == (whole * p) * base);
        }
        assert(own <= whole) by (nonlinear_arith)
            requires
                own * p < held * PRECISION + p,
                held * PRECISION <= whole * p,
                p >= 1,
        ;
    }
}

/// No deposit has a negative stake, and none is owed less than nothing.
pub proof fn lemma_weights(s: StabilityState)
    requires
        s.sound(),
        s.pool is Some,
    ensures
        forall|a: Address| #[trigger]
            s.deposits.contains_key(a) ==> model::staked_in(s.pool->0.epoch)(a, s.deposits[a]) >= 0,
        forall|a: Address| #[trigger]
            s.deposits.contains_key(a) ==> model::owed_to(
                s.pool->0.epoch,
                s.pool->0.sum_coll,
                s.epoch_sums,
            )(a, s.deposits[a]) >= 0,
{
    assert forall|a: Address| #[trigger] s.deposits.contains_key(a) implies model::staked_in(
        s.pool->0.epoch,
    )(a, s.deposits[a]) >= 0 && model::owed_to(
        s.pool->0.epoch,
        s.pool->0.sum_coll,
        s.epoch_sums,
    )(a, s.deposits[a]) >= 0 by {
        assert(s.deposit_sound(a));
        let dep = s.deposits[a];
        lemma_stake(dep.initial_value as int, dep.snapshot.p_value as int);
        let own = model::stake(dep.initial_value as int, dep.snapshot.p_value as int);
        let delta = s.sum_for(dep) - dep.snapshot.sum_coll;
        assert(own * delta >= 0) by (nonlinear_arith)
            requires
                own >= 0,
                delta >= 0,
        ;
    }
}

/// A gain can be computed, and is what its deposit is owed, rounded down.
pub proof fn lemma_gain(s: StabilityState, a: Address)
    requires
        s.sound(),
        s.deposits.contains_key(a),
    ensures
        ({
            let dep = s.deposits[a];
            let base = dep.snapshot.p_value as int;
            let delta = s.sum_for(dep) - dep.snapshot.sum_coll;
            &&& s.get_collateral_gain(a) matches Ok(gain)
            &&& gain >= 0
            &&& gain == arith::quot(dep.initial_value * delta, base)
            &&& gain * base <= dep.initial_value * delta < (gain + 1) * base
            &&& PRECISION * gain <= model::owed_to(
                s.pool->0.epoch,
                s.pool->0.sum_coll,
                s.epoch_sums,
            )(a, dep)
        }),
{
    assert(s.deposit_sound(a));
    let dep = s.deposits[a];
    let weight = model::owed_to(s.pool->0.epoch, s.pool->0.sum_coll, s.epoch_sums);
    lemma_weights(s);
    sums::lemma_total_bounds(s.deposits, weight);
    let base = dep.snapshot.p_value as int;
    let value = dep.initial_value as int;
    let delta = s.sum_for(dep) - dep.snapshot.sum_coll;
    let own = model::stake(value, base);
    lemma_stake(value, base);
    assert(weight(a, dep) == own * delta);
    assert(0 <= value * delta <= own * delta) by (nonlinear_arith)
        requires
            0 <= value <= own,
            delta >= 0,
    ;
    arith::lemma_quot_range(value * delta, base);
    let gain = arith::quot(value * delta, base);
    assert(PRECISION * gain <= own * delta) by (nonlinear_arith)
        requires
            gain * base <= value * delta,
            value * PRECISION <= own * base,
            delta >= 0,
            base >= 1,
    {
        assert((gain * base) * PRECISION <= (value * delta) * PRECISION);
        assert((value * delta) * PRECISION == (value * PRECISION) * delta);
        assert((value * PRECISION) * delta <= (own * base) * delta);
        assert((own * base) * delta == (own * delta) * base);
        assert((gain * base) * PRECISION == (PRECISION * gain) * base);
    }
    if value == 0 {
        assert(value * delta == 0) by (nonlinear_arith)
            requires
                value == 0,
        ;
    }
}

/// A renewed deposit leaves the pool sound, and is owed nothing any more.
proof fn lemma_renewed(s: StabilityState, env: Context, a: Address, value: i128)
    requires
        s.sound(),
        s.pool is Some,
        value >= 0,
        s.renewed(env, a, value) is Ok,
    ensures
        ({
            let t = s.renewed(env, a, value)->Ok_0;
            &&& t.sound()
            &&& t.owed() == s.owed() - (if s.deposits.contains_key(a) {
                model::owed_to(s.pool->0.epoch, s.pool->0.sum_coll, s.epoch_sums)(a, s.deposits[a])
            } else {
                0
            })
        }),
{
    let t = s.renewed(env, a, value)->Ok_0;
    let pool = s.pool->0;
    let dep = t.deposits[a];
    let weight = model::owed_to(pool.epoch, pool.sum_coll, s.epoch_sums);
    sums::lemma_total_insert(s.deposits, weight, a, dep);
    sums::lemma_total_insert(s.deposits, model::staked_in(pool.epoch), a, dep);
    assert(weight(a, dep) == 0) by {
        let own = model::stake(value as int, pool.p as int);
        assert(own * 0 == 0) by (nonlinear_arith);
    }
    lemma_weights(s);
    assert forall|b: Address| #[trigger] t.deposits.contains_key(b) implies t.deposit_sound(b) by {
        if b != a {
            assert(s.deposits.contains_key(b));
            assert(s.deposit_sound(b));
        }
    }
}

/// Changing how much is in the pool leaves it sound.
proof fn lemma_with_total(s: StabilityState, total: int)
    requires
        s.sound(),
        s.pool is Some,
    ensures
        s.with_total(total).sound(),
        s.with_total(total).owed() == s.owed(),
{
    let t = s.with_total(total);
    assert forall|a: Address| #[trigger] t.deposits.contains_key(a) implies t.deposit_sound(a) by {
        assert(s.deposit_sound(a));
    }
}

/// What a payment out of the pool does to its product.
proof fn lemma_paid(pool: PoolState, stakes: int, debt: i128, coll: i128)
    requires
        EPOCH_FLOOR <= pool.p <= PRECISION,
        0 <= debt <= pool.total_deposits,
        pool.paid(stakes, debt, coll) is Ok,
    ensures
        ({
            let next = pool.paid(stakes, debt, coll)->Ok_0;
            &&& 0 <= next.p <= pool.p
            &&& debt == pool.total_deposits ==> next.p == 0
        }),
{
    let total = pool.total_deposits as int;
    let loss = arith::quot(debt * PRECISION, total);
    let p = pool.p as int;
    assert(0 <= debt * PRECISION && 0 <= (debt * PRECISION) / total <= PRECISION)
        by (nonlinear_arith)
        requires
            0 <= debt <= total,
            total > 0,
    ;
    assert(0 <= p * loss && 0 <= (p * loss) / (PRECISION as int) <= p) by (nonlinear_arith)
        requires
            0 <= loss <= PRECISION,
            p >= 0,
    ;
    if debt == pool.total_deposits {
        assert((debt * PRECISION) / (debt as int) == PRECISION && (p * PRECISION) / (
        PRECISION as int) == p) by (nonlinear_arith)
            requires
                debt > 0,
        ;
    }
}

/// What a liquidation gives per stake is no more than it brings.
proof fn lemma_per_stake(stakes: int, coll: i128)
    requires
        stakes >= 0,
        coll >= 0,
        arith::fits(coll * PRECISION),
    ensures
        ({
            let per = PoolState::per_stake(stakes, coll);
            &&& per >= 0
            &&& per * stakes <= coll * PRECISION
            &&& stakes > 0 ==> coll * PRECISION < (per + 1) * stakes
        }),
{
    assert(coll * PRECISION >= 0) by (nonlinear_arith)
        requires
            coll >= 0,
    ;
    if 0 < stakes <= i128::MAX {
        arith::lemma_quot_range(coll * PRECISION, stakes);
    }
}

/// A liquidation leaves the pool sound, and what is owed grows by no more than
/// it brings.
proof fn lemma_absorbed(s: StabilityState, debt: i128, coll: i128)
    requires
        s.sound(),
        s.pool is Some,
        0 <= debt <= s.pool->0.total_deposits,
        coll >= 0,
        s.absorbed(debt, coll) is Ok,
    ensures
        ({
            let t = s.absorbed(debt, coll)->Ok_0;
            &&& t.sound()
            &&& t.owed() <= s.owed() + PRECISION * coll
            &&& forall|a: Address| #[trigger]
                s.deposits.contains_key(a) ==> t.sum_for(s.deposits[a]) == s.sum_for(s.deposits[a])
                    + (if s.deposits[a].snapshot.epoch == s.pool->0.epoch {
                    PoolState::per_stake(s.stakes, coll)
                } else {
                    0
                })
        }),
{
    let t = s.absorbed(debt, coll)->Ok_0;
    let pool = s.pool->0;
    let paid = pool.paid(s.stakes, debt, coll)->Ok_0;
    let next = t.pool->0;
    let per = PoolState::per_stake(s.stakes, coll);
    lemma_paid(pool, s.stakes, debt, coll);
    lemma_weights(s);
    sums::lemma_total_bounds(s.deposits, model::staked_in(pool.epoch));
    lemma_per_stake(s.stakes, coll);
    let before = model::owed_to(pool.epoch, pool.sum_coll, s.epoch_sums);
    let after = model::owed_to(next.epoch, next.sum_coll, t.epoch_sums);
    let staked = model::staked_in(pool.epoch);
    assert forall|a: Address| #[trigger] s.deposits.contains_key(a) implies after(a, s.deposits[a])
        == before(a, s.deposits[a]) + per * staked(a, s.deposits[a]) && t.sum_for(s.deposits[a])
        == s.sum_for(s.deposits[a]) + (if s.deposits[a].snapshot.epoch == pool.epoch {
        per
    } else {
        0
    }) && t.deposit_sound(a) by {
        assert(s.deposit_sound(a));
        let dep = s.deposits[a];
        let own = model::stake(dep.initial_value as int, dep.snapshot.p_value as int);
        let delta = s.sum_for(dep) - dep.snapshot.sum_coll;
        assert(own * (delta + per) == own * delta + per * own && per * 0 == 0)
            by (nonlinear_arith);
    }
    sums::lemma_total_combined(s.deposits, after, before, staked, per);
    if next.epoch != pool.epoch {
        assert forall|a: Address| #[trigger] t.deposits.contains_key(a) implies model::staked_in(
            next.epoch,
        )(a, t.deposits[a]) == 0 by {
            assert(s.deposit_sound(a));
        }
        sums::lemma_total_zero(t.deposits, model::staked_in(next.epoch));
    }
    assert((pool.total_coll_gained + coll) * PRECISION == pool.total_coll_gained * PRECISION + coll
        * PRECISION) by (nonlinear_arith);
}

/// The pool starts sound.
pub proof fn law_starts_sound()
    ensures
        StabilityState::blank().sound(),
{
}

/// Whatever call comes, and whether it is refused or not, the pool stays
/// sound. A liquidation pays no negative debt here and brings no negative
/// collateral: such a debt would raise the product, such collateral would take
/// back what was gained.
pub proof fn law_stays_sound(s: StabilityState, env: Context, call: Call)
    requires
        s.sound(),
        call matches Call::AbsorbLiquidation { debt_to_abs, coll_reward, .. } ==> debt_to_abs >= 0
            && coll_reward >= 0,
    ensures
        s.after(env, call).sound(),
{
    let t = s.after(env, call);
    match call {
        Call::Initialize { .. } => {
            assert forall|a: Address| #[trigger]
                t.deposits.contains_key(a) implies t.deposit_sound(a) by {
                assert(s.deposits.contains_key(a));
                assert(s.deposit_sound(a));
            }
            if s.pool is None && t.pool is Some {
                sums::lemma_total_zero(s.deposits, model::staked_in(0));
                sums::lemma_total_zero(s.deposits, model::owed_to(0, 0, s.epoch_sums));
            }
        },
        Call::Deposit { .. } => lemma_user_call(s, env, call),
        Call::Withdraw { .. } => lemma_user_call(s, env, call),
        Call::AbsorbLiquidation { engine, debt_to_abs, coll_reward, coll_token } => {
            if s.absorb_liquidation(env, engine, debt_to_abs, coll_reward, coll_token) is Ok {
                lemma_absorbed(s, debt_to_abs, coll_reward);
            }
        },
        Call::ClaimGains { .. } => lemma_user_call(s, env, call),
        Call::SetPaused { .. } => {
            assert forall|a: Address| #[trigger]
                t.deposits.contains_key(a) implies t.deposit_sound(a) by {
                assert(s.deposit_sound(a));
            }
        },
        Call::SetCompliance { .. } => {
            assert forall|a: Address| #[trigger]
                t.deposits.contains_key(a) implies t.deposit_sound(a) by {
                assert(s.deposit_sound(a));
            }
        },
        Call::Upgrade { .. } => {},
    }
}

/// The call of a depositor leaves the pool sound, and what is owed falls by
/// what it claims.
proof fn lemma_user_call(s: StabilityState, env: Context, call: Call)
    requires
        s.sound(),
        call is Deposit || call is Withdraw || call is ClaimGains,
    ensures
        s.after(env, call).sound(),
        s.pool is Some ==> s.after(env, call).owed() + PRECISION * s.coll_out(env, call)
            <= s.owed(),
{
    let t = s.after(env, call);
    let a = StabilityState::caller(call)->0;
    if s.pool is Some && s.deposits.contains_key(a) {
        lemma_held(s, a);
        lemma_gain(s, a);
    }
    match call {
        Call::Deposit { depositor, amount } => {
            if s.deposit(env, depositor, amount) is Ok {
                let value = (s.settled(a)->Ok_0.0 + amount) as i128;
                lemma_renewed(s, env, a, value);
                lemma_with_total(
                    s.renewed(env, a, value)->Ok_0,
                    s.pool->0.total_deposits + amount,
                );
            }
        },
        Call::Withdraw { depositor, amount } => {
            if s.withdraw(env, depositor, amount) is Ok {
                let out = s.withdraw(env, depositor, amount)->Ok_0.1;
                let value = (s.settled(a)->Ok_0.0 - out) as i128;
                lemma_renewed(s, env, a, value);
                lemma_with_total(s.renewed(env, a, value)->Ok_0, s.pool->0.total_deposits - out);
            }
        },
        Call::ClaimGains { depositor } => {
            if s.claim_gains(env, depositor) is Ok && s.deposits.contains_key(a) {
                lemma_renewed(s, env, a, s.settled(a)->Ok_0.0);
            }
        },
        _ => {},
    }
}

/// No call pays out collateral that did not come in: what a call claims, and
/// what is owed after it, is no more than what was owed before and what the
/// call brings.
pub proof fn law_gains_are_covered(s: StabilityState, env: Context, call: Call)
    requires
        s.sound(),
        s.pool is Some,
        call matches Call::AbsorbLiquidation { debt_to_abs, coll_reward, .. } ==> debt_to_abs >= 0
            && coll_reward >= 0,
    ensures
        s.after(env, call).owed() + PRECISION * s.coll_out(env, call) <= s.owed() + PRECISION
            * s.coll_in(env, call),
{
    match call {
        Call::Initialize { .. } => {},
        Call::Deposit { .. } => lemma_user_call(s, env, call),
        Call::Withdraw { .. } => lemma_user_call(s, env, call),
        Call::AbsorbLiquidation { engine, debt_to_abs, coll_reward, coll_token } => {
            if s.absorb_liquidation(env, engine, debt_to_abs, coll_reward, coll_token) is Ok {
                lemma_absorbed(s, debt_to_abs, coll_reward);
            }
        },
        Call::ClaimGains { .. } => lemma_user_call(s, env, call),
        Call::SetPaused { .. } => {},
        Call::SetCompliance { .. } => {},
        Call::Upgrade { .. } => {},
    }
}

/// The gains of all depositors together are no more than what is owed, and
/// never more than all the collateral that was received.
pub proof fn law_gains_never_exceed_what_came_in(s: StabilityState)
    requires
        s.sound(),
        s.pool is Some,
    ensures
        forall|a: Address| (#[trigger] s.get_collateral_gain(a)) matches Ok(gain) && gain >= 0,
        PRECISION * s.gains() <= s.owed(),
        0 <= s.gains() <= s.pool->0.total_coll_gained,
{
    let gain = |a: Address, dep: Deposit| s.get_collateral_gain(a)->Ok_0 as int;
    let limit = model::owed_to(s.pool->0.epoch, s.pool->0.sum_coll, s.epoch_sums);
    assert forall|a: Address| (#[trigger] s.get_collateral_gain(a)) matches Ok(gain) && gain
        >= 0 by {
        if s.deposits.contains_key(a) {
            lemma_gain(s, a);
        }
    }
    assert forall|a: Address| #[trigger] s.deposits.contains_key(a) implies PRECISION * gain(
        a,
        s.deposits[a],
    ) <= limit(a, s.deposits[a]) && gain(a, s.deposits[a]) >= 0 by {
        lemma_gain(s, a);
    }
    sums::lemma_total_at_most(s.deposits, gain, limit, PRECISION as int);
    sums::lemma_total_bounds(s.deposits, gain);
}

/// A gain stays until it is claimed: no call of another makes it less, nor
/// does the end of its epoch.
pub proof fn law_gains_are_kept(s: StabilityState, env: Context, call: Call, a: Address)
    requires
        s.sound(),
        s.pool is Some,
        StabilityState::caller(call) != Some(a),
        call matches Call::AbsorbLiquidation { debt_to_abs, coll_reward, .. } ==> debt_to_abs >= 0
            && coll_reward >= 0,
    ensures
        s.get_collateral_gain(a) matches Ok(before) && s.after(env, call).get_collateral_gain(
            a,
        ) matches Ok(now) && before <= now,
{
    let t = s.after(env, call);
    law_stays_sound(s, env, call);
    match call {
        Call::AbsorbLiquidation { engine, debt_to_abs, coll_reward, coll_token } => {
            if s.absorb_liquidation(env, engine, debt_to_abs, coll_reward, coll_token) is Ok {
                lemma_absorbed(s, debt_to_abs, coll_reward);
                lemma_weights(s);
                sums::lemma_total_bounds(s.deposits, model::staked_in(s.pool->0.epoch));
                lemma_per_stake(s.stakes, coll_reward);
            }
        },
        _ => {},
    }
    if s.deposits.contains_key(a) {
        lemma_gain(s, a);
        lemma_gain(t, a);
        assert(s.deposit_sound(a));
        let dep = s.deposits[a];
        let value = dep.initial_value as int;
        let less = s.sum_for(dep) - dep.snapshot.sum_coll;
        let more = t.sum_for(dep) - dep.snapshot.sum_coll;
        assert(0 <= value * less <= value * more) by (nonlinear_arith)
            requires
                value >= 0,
                0 <= less <= more,
        ;
        lemma_quot_ordered(value * less, value * more, dep.snapshot.p_value as int);
    }
}

/// The books: what is in the pool, and what is left of each deposit, moves by
/// what a deposit brings and a withdrawal takes; a claim moves neither. Only a
/// liquidation takes from the pool what nobody asked for, and it takes the debt
/// that it pays.
pub proof fn law_books(s: StabilityState, env: Context, call: Call)
    requires
        s.sound(),
        s.pool is Some,
    ensures
        ({
            let t = s.after(env, call);
            &&& t.pool matches Some(pool) && pool.total_deposits == s.pool->0.total_deposits
                + s.usdc_in(env, call)
            &&& call !is AbsorbLiquidation ==> forall|a: Address|
                {
                    &&& s.get_compounded_deposit(a) is Ok
                    &&& (#[trigger] t.get_compounded_deposit(a)) matches Ok(left) && left
                        == s.get_compounded_deposit(a)->Ok_0 + (if StabilityState::caller(call)
                        == Some(a) {
                        s.usdc_in(env, call)
                    } else {
                        0
                    })
                }
        }),
{
    let t = s.after(env, call);
    if call !is AbsorbLiquidation {
        assert forall|a: Address|
            {
                &&& s.get_compounded_deposit(a) is Ok
                &&& (#[trigger] t.get_compounded_deposit(a)) matches Ok(left) && left
                    == s.get_compounded_deposit(a)->Ok_0 + (if StabilityState::caller(call) == Some(
                    a,
                ) {
                    s.usdc_in(env, call)
                } else {
                    0
                })
            } by {
            lemma_balance(s, env, call, a);
        }
    }
}

/// What a call other than a liquidation does to what is left of a deposit.
proof fn lemma_balance(s: StabilityState, env: Context, call: Call, a: Address)
    requires
        s.sound(),
        s.pool is Some,
        call !is AbsorbLiquidation,
    ensures
        s.get_compounded_deposit(a) is Ok,
        s.after(env, call).get_compounded_deposit(a) matches Ok(left) && left
            == s.get_compounded_deposit(a)->Ok_0 + (if StabilityState::caller(call) == Some(a) {
            s.usdc_in(env, call)
        } else {
            0
        }),
{
    let t = s.after(env, call);
    if s.deposits.contains_key(a) {
        lemma_held(s, a);
    }
    match call {
        Call::Initialize { .. } => {},
        Call::Deposit { depositor, amount } => {
            if a == depositor && s.deposit(env, depositor, amount) is Ok {
                lemma_fresh(t.deposits[a], t.pool->0);
            }
        },
        Call::Withdraw { depositor, amount } => {
            if a == depositor && s.withdraw(env, depositor, amount) is Ok {
                lemma_fresh(t.deposits[a], t.pool->0);
            }
        },
        Call::AbsorbLiquidation { .. } => {},
        Call::ClaimGains { depositor } => {
            if a == depositor && s.deposits.contains_key(a) && s.claim_gains(env, depositor) is Ok {
                lemma_fresh(t.deposits[a], t.pool->0);
            }
        },
        Call::SetPaused { .. } => {},
        Call::SetCompliance { .. } => {},
        Call::Upgrade { .. } => {},
    }
}

/// There is no lock: at any time, whether the pool is paused or not, a
/// depositor gets what they ask for, up to all that is left of the deposit.
pub proof fn law_full_withdrawal(s: StabilityState, env: Context, depositor: Address, amount: i128)
    requires
        s.sound(),
        s.deposits.contains_key(depositor),
        amount > 0,
        s.get_compounded_deposit(depositor)->Ok_0 > 0,
        arith::fits(s.pool->0.total_deposits - s.get_compounded_deposit(depositor)->Ok_0),
    ensures
        s.get_compounded_deposit(depositor) matches Ok(held) && s.withdraw(
            env,
            depositor,
            amount,
        ) matches Ok((t, out, _)) && {
            &&& out == arith::min(amount as int, held as int)
            &&& t.deposits[depositor].initial_value == held - out
            &&& t.pool->0.total_deposits == s.pool->0.total_deposits - out
        },
{
    assert(s.deposit_sound(depositor));
    lemma_held(s, depositor);
    lemma_gain(s, depositor);
    lemma_weights(s);
    sums::lemma_total_bounds(s.deposits, model::staked_in(s.pool->0.epoch));
    let held = s.get_compounded_deposit(depositor)->Ok_0;
    let out = arith::min(amount as int, held as int);
    lemma_stake_ordered(held - out, held as int, s.pool->0.p as int);
    assert(s.stake_of(depositor) <= s.stakes) by {
        assert(s.deposits.contains_key(depositor));
    }
}

/// Withdrawing what was deposited gives it back, and leaves the pool and the
/// depositor with what they had.
pub proof fn law_withdrawal_undoes_deposit(
    s: StabilityState,
    env: Context,
    depositor: Address,
    amount: i128,
)
    requires
        s.sound(),
    ensures
        s.deposit(env, depositor, amount) matches Ok((t, _)) ==> {
            &&& t.withdraw(env, depositor, amount) matches Ok((u, out, _))
            &&& out == amount
            &&& u.pool == s.pool
            &&& s.get_compounded_deposit(depositor) == Ok::<i128, Error>(
                u.deposits[depositor].initial_value,
            )
            &&& u.get_compounded_deposit(depositor) == s.get_compounded_deposit(depositor)
        },
{
    if s.deposit(env, depositor, amount) is Ok {
        let t = s.deposit(env, depositor, amount)->Ok_0.0;
        if s.deposits.contains_key(depositor) {
            lemma_held(s, depositor);
        }
        let held = s.settled(depositor)->Ok_0.0 as int;
        let dep = t.deposits[depositor];
        let p = s.pool->0.p as int;
        assert(dep.initial_value * 0 == 0);
        assert(model::coll_gain(dep, t.sum_for(dep)) == Ok::<i128, Error>(0)) by {
            assert(t.sum_for(dep) == dep.snapshot.sum_coll);
            assert(arith::quot(0, dep.snapshot.p_value as int) == 0);
        }
        lemma_fresh(dep, t.pool->0);
        lemma_stake_ordered(held, held + amount, p);
        let u = t.withdraw(env, depositor, amount)->Ok_0.0;
        lemma_fresh(u.deposits[depositor], u.pool->0);
    }
}

/// A liquidation gives each deposit of the epoch its share of the collateral by
/// stake, up to rounding, the one that empties the pool no less than any other;
/// and no deposit grows by it.
pub proof fn law_gains_are_pro_rata(
    s: StabilityState,
    env: Context,
    engine: Address,
    debt: i128,
    coll: i128,
    coll_token: Address,
    a: Address,
)
    requires
        s.sound(),
        debt >= 0,
        coll >= 0,
        s.deposits.contains_key(a),
        s.deposits[a].snapshot.epoch == s.pool->0.epoch,
    ensures
        s.absorb_liquidation(env, engine, debt, coll, coll_token) matches Ok((t, _)) ==> {
            let own = s.stake_of(a);
            let per = PoolState::per_stake(s.stakes, coll);
            let gain = t.get_collateral_gain(a)->Ok_0 - s.get_collateral_gain(a)->Ok_0;
            &&& t.get_collateral_gain(a) is Ok && s.get_collateral_gain(a) is Ok
            &&& (gain - 1) * PRECISION <= own * per
            &&& (own - 1) * per <= (gain + 1) * PRECISION
            &&& per * s.stakes <= coll * PRECISION
            &&& own > 0 ==> coll * PRECISION < (per + 1) * s.stakes
            &&& t.get_compounded_deposit(a) matches Ok(left) && 0 <= left
                <= s.get_compounded_deposit(a)->Ok_0
        },
{
    if s.absorb_liquidation(env, engine, debt, coll, coll_token) is Ok {
        let t = s.absorb_liquidation(env, engine, debt, coll, coll_token)->Ok_0.0;
        let dep = s.deposits[a];
        assert(s.deposit_sound(a));
        lemma_absorbed(s, debt, coll);
        lemma_weights(s);
        sums::lemma_total_bounds(s.deposits, model::staked_in(s.pool->0.epoch));
        lemma_per_stake(s.stakes, coll);
        lemma_gain(s, a);
        lemma_gain(t, a);
        lemma_held(s, a);
        lemma_held(t, a);
        let base = dep.snapshot.p_value as int;
        let value = dep.initial_value as int;
        lemma_stake(value, base);
        let own = s.stake_of(a);
        let per = PoolState::per_stake(s.stakes, coll);
        let less = s.get_collateral_gain(a)->Ok_0 as int;
        let more = t.get_collateral_gain(a)->Ok_0 as int;
        let delta = s.sum_for(dep) - dep.snapshot.sum_coll;
        assert(t.sum_for(dep) - dep.snapshot.sum_coll == delta + per);
        assert((more - less - 1) * base <= value * per <= (more - less + 1) * base)
            by (nonlinear_arith)
            requires
                less * base <= value * delta < (less + 1) * base,
                more * base <= value * (delta + per) < (more + 1) * base,
        ;
        lemma_shares(value, base, own, per, more - less);
        lemma_paid(s.pool->0, s.stakes, debt, coll);
        lemma_shrinks(dep, s.pool->0, t.pool->0);
    }
}

/// The share of a stake, from the share of a value.
proof fn lemma_shares(value: int, base: int, own: int, per: int, gain: int)
    requires
        base >= 1,
        per >= 0,
        value * PRECISION <= own * base < value * PRECISION + base,
        (gain - 1) * base <= value * per <= (gain + 1) * base,
    ensures
        (gain - 1) * PRECISION <= own * per,
        (own - 1) * per <= (gain + 1) * PRECISION,
{
    assert((gain - 1) * PRECISION <= own * per) by (nonlinear_arith)
        requires
            base >= 1,
            per >= 0,
            value * PRECISION <= own * base,
            (gain - 1) * base <= value * per,
    {
        assert(((gain - 1) * base) * PRECISION <= (value * per) * PRECISION);
        assert((value * per) * PRECISION == (value * PRECISION) * per);
        assert((value * PRECISION) * per <= (own * base) * per);
        assert((own * base) * per == (own * per) * base);
        assert(((gain - 1) * base) * PRECISION == ((gain - 1) * PRECISION) * base);
    }
    assert((own - 1) * per <= (gain + 1) * PRECISION) by (nonlinear_arith)
        requires
            base >= 1,
            per >= 0,
            own * base < value * PRECISION + base,
            value * per <= (gain + 1) * base,
    {
        assert((own - 1) * base <= value * PRECISION);
        assert(((own - 1) * base) * per <= (value * PRECISION) * per);
        assert((value * PRECISION) * per == (value * per) * PRECISION);
        assert((value * per) * PRECISION <= ((gain + 1) * base) * PRECISION);
        assert(((gain + 1) * base) * PRECISION == ((gain + 1) * PRECISION) * base);
        assert(((own - 1) * base) * per == ((own - 1) * per) * base);
    }
}

/// A deposit does not grow as the product falls.
proof fn lemma_shrinks(dep: Deposit, pool: PoolState, next: PoolState)
    requires
        dep.initial_value >= 0,
        dep.snapshot.p_value >= 1,
        dep.snapshot.epoch == pool.epoch,
        next.epoch == pool.epoch ==> 0 <= next.p <= pool.p,
        model::compounded(dep, pool) matches Ok(left) && left >= 0,
        model::compounded(dep, next) is Ok,
    ensures
        model::compounded(dep, next)->Ok_0 <= model::compounded(dep, pool)->Ok_0,
{
    if next.epoch == pool.epoch {
        let base = dep.snapshot.p_value as int;
        let value = dep.initial_value as int;
        let p = pool.p as int;
        let q = next.p as int;
        assert(0 <= q * PRECISION <= p * PRECISION) by (nonlinear_arith)
            requires
                0 <= q <= p,
        ;
        lemma_quot_ordered(q * PRECISION, p * PRECISION, base);
        let less = arith::quot(q * PRECISION, base);
        let more = arith::quot(p * PRECISION, base);
        assert(0 <= value * less <= value * more) by (nonlinear_arith)
            requires
                0 <= less <= more,
                value >= 0,
        ;
        lemma_quot_ordered(value * less, value * more, PRECISION as int);
    }
}

/// The USDC of a deposit is lost with its epoch, the collateral is not: what
/// the epoch gained per stake by its end can still be claimed.
pub proof fn law_lost_with_its_epoch(s: StabilityState, a: Address)
    requires
        s.sound(),
        s.deposits.contains_key(a),
        s.deposits[a].snapshot.epoch != s.pool->0.epoch,
    ensures
        s.get_compounded_deposit(a) == Ok::<i128, Error>(0),
        s.epoch_sums.contains_key(s.deposits[a].snapshot.epoch),
        s.get_collateral_gain(a) == Ok::<i128, Error>(
            arith::quot(
                s.deposits[a].initial_value * (s.epoch_sums[s.deposits[a].snapshot.epoch]
                    - s.deposits[a].snapshot.sum_coll),
                s.deposits[a].snapshot.p_value as int,
            ) as i128,
        ),
{
    assert(s.deposit_sound(a));
    lemma_gain(s, a);
}

/// A liquidation that takes all there is ends the epoch, and what the epoch
/// gained is kept.
pub proof fn law_emptying_ends_the_epoch(
    s: StabilityState,
    env: Context,
    engine: Address,
    coll: i128,
    coll_token: Address,
)
    requires
        s.sound(),
        s.pool is Some,
        s.pool->0.total_deposits >= 0,
    ensures
        s.absorb_liquidation(
            env,
            engine,
            s.pool->0.total_deposits,
            coll,
            coll_token,
        ) matches Ok((t, _)) ==> {
            &&& t.pool->0.epoch == s.pool->0.epoch + 1
            &&& t.pool->0.p == PRECISION
            &&& t.pool->0.sum_coll == 0
            &&& t.pool->0.total_deposits == 0
            &&& t.epoch_sums.contains_key(s.pool->0.epoch)
            &&& t.epoch_sums[s.pool->0.epoch] == s.pool->0.sum_coll + PoolState::per_stake(
                s.stakes,
                coll,
            )
        },
{
    let total = s.pool->0.total_deposits;
    if s.absorb_liquidation(env, engine, total, coll, coll_token) is Ok {
        lemma_paid(s.pool->0, s.stakes, total, coll);
    }
}

/// Nobody but the engine takes from the pool without a deposit.
pub proof fn law_only_the_engine(
    s: StabilityState,
    env: Context,
    engine: Address,
    debt: i128,
    coll: i128,
    coll_token: Address,
)
    ensures
        s.absorb_liquidation(env, engine, debt, coll, coll_token) matches Ok((t, effects)) ==> {
            &&& s.engine == Some(engine)
            &&& effects[0] == Effect::RequireAuth(engine)
            &&& debt <= s.pool->0.total_deposits
        },
{
}

/// Every call of a depositor is authorised by them and checked against the
/// compliance registry first.
pub proof fn law_users_are_checked(s: StabilityState, env: Context, user: Address, amount: i128)
    ensures
        s.deposit(env, user, amount) matches Ok((_, effects)) ==> effects.take(2) == s.gate(
            env,
            user,
        ),
        s.withdraw(env, user, amount) matches Ok((_, _, effects)) ==> effects.take(2) == s.gate(
            env,
            user,
        ),
        s.claim_gains(env, user) matches Ok((_, _, effects)) ==> effects.take(2) == s.gate(
            env,
            user,
        ),
{
    if s.deposit(env, user, amount) is Ok {
        assert(s.deposit(env, user, amount)->Ok_0.1.take(2) =~= s.gate(env, user));
    }
    if s.withdraw(env, user, amount) is Ok {
        assert(s.withdraw(env, user, amount)->Ok_0.2.take(2) =~= s.gate(env, user));
    }
    if s.claim_gains(env, user) is Ok {
        assert(s.claim_gains(env, user)->Ok_0.2.take(2) =~= s.gate(env, user));
    }
}

/// A claim reports and returns the gain that was there, and leaves nothing to
/// claim.
pub proof fn law_claims_once(s: StabilityState, env: Context, depositor: Address)
    requires
        s.sound(),
    ensures
        s.claim_gains(env, depositor) matches Ok((t, claimed, effects)) ==> {
            &&& s.get_collateral_gain(depositor) == Ok::<i128, Error>(claimed)
            &&& effects == s.gate(env, depositor) + model::claim_effects(depositor, claimed)
            &&& t.get_collateral_gain(depositor) == Ok::<i128, Error>(0)
        },
{
    if s.claim_gains(env, depositor) is Ok && s.deposits.contains_key(depositor) {
        lemma_gain(s, depositor);
        let dep = s.claim_gains(env, depositor)->Ok_0.0.deposits[depositor];
        assert(dep.initial_value * 0 == 0);
    }
}

/// A paused pool takes no deposit and pays no liquidation.
pub proof fn law_paused(
    s: StabilityState,
    env: Context,
    user: Address,
    amount: i128,
    engine: Address,
    debt: i128,
    coll: i128,
    coll_token: Address,
)
    requires
        s.pool matches Some(pool) && pool.paused,
    ensures
        s.deposit(env, user, amount) is Err,
        s.absorb_liquidation(env, engine, debt, coll, coll_token) is Err,
{
}

/// Only the admin pauses the pool; only the DAO changes the registry; the
/// other settings stay for good.
pub proof fn law_settings(s: StabilityState, env: Context, call: Call)
    requires
        s.sound(),
        s.pool is Some,
    ensures
        ({
            let t = s.after(env, call);
            &&& t.admin == s.admin && t.usdc == s.usdc && t.engine == s.engine && t.dao == s.dao
            &&& t.pool->0.paused != s.pool->0.paused ==> (call matches Call::SetPaused {
                admin,
                ..
            } && s.admin == Some(admin))
            &&& t.compliance != s.compliance ==> (call matches Call::SetCompliance { dao, .. }
                && s.dao == Some(dao))
        }),
{
    match call {
        Call::Initialize { .. } => {},
        Call::Deposit { .. } => {},
        Call::Withdraw { .. } => {},
        Call::AbsorbLiquidation { .. } => {},
        Call::ClaimGains { .. } => {},
        Call::SetPaused { .. } => {},
        Call::SetCompliance { .. } => {},
        Call::Upgrade { .. } => {},
    }
}

/// An upgrade is authorised by the DAO that is stored, and changes nothing
/// else.
pub proof fn law_upgrade(s: StabilityState, new_wasm_hash: WasmHash)
    ensures
        s.upgrade(new_wasm_hash) matches Ok((t, effects)) ==> {
            &&& t == s
            &&& effects == seq![Effect::RequireAuth(s.dao->0), Effect::UpdateWasm(new_wasm_hash)]
        },
        error::refused(s.upgrade(new_wasm_hash), Error::NotInitialised) == (s.dao is None),
{
}

} // verus!
