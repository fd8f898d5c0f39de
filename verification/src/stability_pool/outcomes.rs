//! What the calls on the pool take, give and leave, told from the numbers that
//! the pool and its deposits hold.
use crate::arith;
use crate::error::Error;
use crate::stability_pool::laws;
use crate::stability_pool::model;
use crate::stability_pool::model::StabilityState;
use crate::stability_pool::{
    AbsorbLiquidationEvent, ClaimGainsEvent, Deposit, DepositEvent, Effect, PoolState, Snapshot,
    WithdrawEvent,
};
use crate::sums;
use crate::types::{Address, Context, Symbol, WasmHash};
use vstd::prelude::*;

verus! {

/// What is left of a depositor's USDC: as much of what was put in as the product
/// is of what it was then; nothing once the epoch is over.
pub open spec fn left_of(s: StabilityState, a: Address, held: int) -> bool {
    let dep = s.deposits[a];
    let pool = s.pool->0;
    if s.deposits.contains_key(a) && dep.snapshot.epoch == pool.epoch {
        exists|ratio: int| #[trigger]
            arith::rounded_down(ratio, pool.p * 1_000_000_000_000, dep.snapshot.p_value as int)
                && arith::rounded_down(held, dep.initial_value * ratio, 1_000_000_000_000)
    } else {
        held == 0
    }
}

/// What a depositor earned: for what was put in, what collateral per stake came
/// while its epoch lasted, over the product that it was put in under.
pub open spec fn earned(s: StabilityState, a: Address, gain: int) -> bool {
    let dep = s.deposits[a];
    let pool = s.pool->0;
    if s.deposits.contains_key(a) {
        let sum = if dep.snapshot.epoch == pool.epoch {
            pool.sum_coll
        } else {
            s.epoch_sums[dep.snapshot.epoch]
        };
        arith::rounded_down(
            gain,
            dep.initial_value * (sum - dep.snapshot.sum_coll),
            dep.snapshot.p_value as int,
        )
    } else {
        gain == 0
    }
}

/// So many stakes make a value under a product: the value over the product,
/// rounded up.
pub open spec fn stakes_for(count: int, value: int, product: int) -> bool {
    value * 1_000_000_000_000 <= count * product < value * 1_000_000_000_000 + product
}

/// What a depositor's stakes count now: those of a deposit of this epoch.
pub open spec fn staked(s: StabilityState, a: Address, count: int) -> bool {
    let dep = s.deposits[a];
    if s.deposits.contains_key(a) && dep.snapshot.epoch == s.pool->0.epoch {
        stakes_for(count, dep.initial_value as int, dep.snapshot.p_value as int)
    } else {
        count == 0
    }
}

/// What a depositor's call starts with: the depositor's word, the check of the
/// depositor, and word of the collateral earned, if there is any.
pub open spec fn checked(s: StabilityState, env: Context, user: Address, gain: int) -> Seq<Effect> {
    let first = seq![
        Effect::RequireAuth(user),
        Effect::AssertUserCompliant { registry: s.compliance->0, caller: env.contract, user },
    ];
    if gain > 0 {
        first.push(
            Effect::Claim(
                ClaimGainsEvent {
                    depositor: user,
                    gain_type: Symbol { head: 0x636f6c6c, tail: 0 },
                    amount: gain as i128,
                },
            ),
        )
    } else {
        first
    }
}

/// The deposit of somebody who holds a value from now on; when the first
/// deposit was made stays known.
pub open spec fn fresh(s: StabilityState, env: Context, a: Address, value: int) -> Deposit {
    let pool = s.pool->0;
    Deposit {
        initial_value: value as i128,
        snapshot: Snapshot {
            p_value: pool.p,
            sum_coll: pool.sum_coll,
            epoch: pool.epoch,
            scale: pool.scale,
        },
        deposited_at: if s.deposits.contains_key(a) {
            s.deposits[a].deposited_at
        } else {
            env.timestamp
        },
    }
}

proof fn lemma_settled(s: StabilityState, a: Address, held: int, gain: int)
    requires
        s.sound(),
        s.pool is Some,
        left_of(s, a, held),
        earned(s, a, gain),
    ensures
        s.settled(a) == Ok::<(i128, i128), Error>((held as i128, gain as i128)),
        s.get_compounded_deposit(a) == Ok::<i128, Error>(held as i128),
        s.get_collateral_gain(a) == Ok::<i128, Error>(gain as i128),
        0 <= held <= i128::MAX,
        0 <= gain <= i128::MAX,
        s.deposits.contains_key(a) ==> held <= s.deposits[a].initial_value,
{
    if s.deposits.contains_key(a) {
        assert(s.deposit_sound(a));
        let dep = s.deposits[a];
        let pool = s.pool->0;
        let value = dep.initial_value as int;
        laws::lemma_held(s, a);
        laws::lemma_gain(s, a);
        let delta = s.sum_for(dep) - dep.snapshot.sum_coll;
        assert(value * delta >= 0) by (nonlinear_arith)
            requires
                value >= 0,
                delta >= 0,
        ;
        arith::lemma_rounded_down(gain, value * delta, dep.snapshot.p_value as int);
        if dep.snapshot.epoch == pool.epoch {
            let ratio = choose|ratio: int| #[trigger]
                arith::rounded_down(ratio, pool.p * 1_000_000_000_000, dep.snapshot.p_value as int)
                    && arith::rounded_down(held, dep.initial_value * ratio, 1_000_000_000_000);
            arith::lemma_rounded_down(
                ratio,
                pool.p * 1_000_000_000_000,
                dep.snapshot.p_value as int,
            );
            assert(value * ratio >= 0) by (nonlinear_arith)
                requires
                    value >= 0,
                    ratio >= 0,
            ;
            arith::lemma_rounded_down(held, value * ratio, 1_000_000_000_000);
        }
    }
}

proof fn lemma_stakes(count: int, value: int, product: int)
    requires
        value >= 0,
        1 <= product <= 1_000_000_000_000,
        stakes_for(count, value, product),
    ensures
        count == model::stake(value, product),
{
    laws::lemma_stake(value, product);
    let other = model::stake(value, product);
    assert(count == other) by (nonlinear_arith)
        requires
            value * 1_000_000_000_000 <= count * product < value * 1_000_000_000_000 + product,
            value * 1_000_000_000_000 <= other * product < value * 1_000_000_000_000 + product,
            product >= 1,
    ;
}

proof fn lemma_staked(s: StabilityState, a: Address, count: int)
    requires
        s.sound(),
        s.pool is Some,
        staked(s, a, count),
    ensures
        count == s.stake_of(a),
        0 <= count <= s.stakes,
{
    if s.deposits.contains_key(a) {
        assert(s.deposit_sound(a));
        let dep = s.deposits[a];
        let weight = model::staked_in(s.pool->0.epoch);
        if dep.snapshot.epoch == s.pool->0.epoch {
            lemma_stakes(count, dep.initial_value as int, dep.snapshot.p_value as int);
        }
        laws::lemma_weights(s);
        sums::lemma_total_bounds(s.deposits, weight);
        assert(weight(a, dep) <= sums::total(s.deposits, weight));
    } else {
        laws::lemma_weights(s);
        sums::lemma_total_bounds(s.deposits, model::staked_in(s.pool->0.epoch));
    }
}

/// What can be read of a deposit: what is left of it, and what it earned.
pub proof fn law_reads(s: StabilityState, a: Address, held: int, gain: int)
    requires
        s.sound(),
        s.pool is Some,
        left_of(s, a, held),
        earned(s, a, gain),
    ensures
        s.get_compounded_deposit(a) matches Ok(r) && r == held,
        s.get_collateral_gain(a) matches Ok(r) && r == gain,
        s.deposits.contains_key(a) ==> 0 <= held <= s.deposits[a].initial_value,
        gain >= 0,
{
    lemma_settled(s, a, held, gain);
}

/// A deposit adds to what is left of the depositor's USDC, and to the pool. From
/// then on the depositor shares in what comes with the stakes of all of it.
pub proof fn law_deposit(
    s: StabilityState,
    env: Context,
    depositor: Address,
    amount: i128,
    held: int,
    gain: int,
    before: int,
    now: int,
)
    requires
        s.sound(),
        s.pool is Some,
        left_of(s, depositor, held),
        earned(s, depositor, gain),
        staked(s, depositor, before),
        amount > 0 ==> stakes_for(now, held + amount, s.pool->0.p as int),
    ensures
        ({
            let pool = s.pool->0;
            let step = s.deposit(env, depositor, amount);
            &&& step is Ok <==> {
                &&& amount > 0
                &&& !pool.paused
                &&& arith::fits(held + amount)
                &&& arith::fits(pool.total_deposits + amount)
                &&& s.stakes - before + now
                    < 0x1_0000_0000_0000_0000_0000_0000_0000_0000_0000_0000_0000_0000_0000_0000_0000_0000int
            }
            &&& step matches Ok((t, effects)) ==> {
                &&& t == (StabilityState {
                    pool: Some(
                        PoolState {
                            total_deposits: (pool.total_deposits + amount) as i128,
                            ..pool
                        },
                    ),
                    deposits: s.deposits.insert(depositor, fresh(s, env, depositor, held + amount)),
                    stakes: s.stakes - before + now,
                    ..s
                })
                &&& effects == checked(s, env, depositor, gain) + seq![
                    Effect::Transfer {
                        token: s.usdc->0,
                        from: depositor,
                        to: env.contract,
                        amount,
                    },
                    Effect::Deposit(DepositEvent { depositor, amount }),
                ]
            }
            &&& amount <= 0 ==> step == Err::<(StabilityState, Seq<Effect>), Error>(
                Error::AmountNotPositive,
            )
            &&& amount > 0 && pool.paused ==> step == Err::<(StabilityState, Seq<Effect>), Error>(
                Error::PoolPaused,
            )
        }),
{
    lemma_settled(s, depositor, held, gain);
    lemma_staked(s, depositor, before);
    if amount > 0 {
        lemma_stakes(now, held + amount, s.pool->0.p as int);
        if arith::fits(held + amount) {
            assert(((held as i128) + amount) as i128 == held + amount);
        }
    }
    lemma_words();
}

proof fn lemma_words()
    ensures
        crate::stability_pool::stakes::word() * crate::stability_pool::stakes::word()
            == 0x1_0000_0000_0000_0000_0000_0000_0000_0000_0000_0000_0000_0000_0000_0000_0000_0000int,
{
    assert(0x1_0000_0000_0000_0000_0000_0000_0000_0000int
        * 0x1_0000_0000_0000_0000_0000_0000_0000_0000int
        == 0x1_0000_0000_0000_0000_0000_0000_0000_0000_0000_0000_0000_0000_0000_0000_0000_0000int)
        by (nonlinear_arith);
}

/// A withdrawal pays what is asked for, and all that is left where more is asked
/// for; the rest stays in the pool under the depositor's name.
pub proof fn law_withdraw(
    s: StabilityState,
    env: Context,
    depositor: Address,
    amount: i128,
    held: int,
    gain: int,
    before: int,
    now: int,
    out: int,
)
    requires
        s.sound(),
        s.pool is Some,
        left_of(s, depositor, held),
        earned(s, depositor, gain),
        staked(s, depositor, before),
        out == (if amount <= held {
            amount as int
        } else {
            held
        }),
        out > 0 ==> stakes_for(now, held - out, s.pool->0.p as int),
    ensures
        ({
            let pool = s.pool->0;
            let step = s.withdraw(env, depositor, amount);
            &&& step is Ok <==> {
                &&& s.deposits.contains_key(depositor)
                &&& out > 0
                &&& arith::fits(pool.total_deposits - out)
            }
            &&& step matches Ok((t, paid, effects)) ==> {
                &&& paid == out
                &&& t == (StabilityState {
                    pool: Some(
                        PoolState { total_deposits: (pool.total_deposits - out) as i128, ..pool },
                    ),
                    deposits: s.deposits.insert(depositor, fresh(s, env, depositor, held - out)),
                    stakes: s.stakes - before + now,
                    ..s
                })
                &&& effects == checked(s, env, depositor, gain) + seq![
                    Effect::Transfer {
                        token: s.usdc->0,
                        from: env.contract,
                        to: depositor,
                        amount: out as i128,
                    },
                    Effect::Withdraw(WithdrawEvent { depositor, amount: out as i128 }),
                ]
            }
            &&& step matches Err(e) ==> e == (if !s.deposits.contains_key(depositor) {
                Error::NoDeposit
            } else if out <= 0 {
                Error::NothingToWithdraw
            } else {
                Error::Arithmetic
            })
        }),
{
    lemma_settled(s, depositor, held, gain);
    lemma_staked(s, depositor, before);
    if s.deposits.contains_key(depositor) {
        laws::lemma_held(s, depositor);
    }
    if out > 0 {
        lemma_stakes(now, held - out, s.pool->0.p as int);
        laws::lemma_stake_ordered(held - out, held, s.pool->0.p as int);
    }
}

/// A claim gives all that was earned; what is left of the USDC stays in the
/// pool, and shares in what comes from then on.
pub proof fn law_claim_gains(
    s: StabilityState,
    env: Context,
    depositor: Address,
    held: int,
    gain: int,
    before: int,
    now: int,
)
    requires
        s.sound(),
        s.pool is Some,
        left_of(s, depositor, held),
        earned(s, depositor, gain),
        staked(s, depositor, before),
        stakes_for(now, held, s.pool->0.p as int),
    ensures
        s.claim_gains(env, depositor) matches Ok((t, paid, effects)) && {
            &&& paid == gain
            &&& effects == checked(s, env, depositor, gain)
            &&& !s.deposits.contains_key(depositor) ==> t == s
            &&& s.deposits.contains_key(depositor) ==> t == (StabilityState {
                deposits: s.deposits.insert(depositor, fresh(s, env, depositor, held)),
                stakes: s.stakes - before + now,
                ..s
            })
        },
{
    lemma_settled(s, depositor, held, gain);
    lemma_staked(s, depositor, before);
    lemma_stakes(now, held, s.pool->0.p as int);
    if s.deposits.contains_key(depositor) {
        laws::lemma_held(s, depositor);
    }
    assert(s.claim_gains(env, depositor)->Ok_0.2 =~= checked(s, env, depositor, gain));
}

/// A liquidation pays the debt out of the pool: the product falls by the part of
/// the deposits that the debt is, and the collateral is shared out by stake.
/// Where the product falls below its floor a new epoch starts at one, with no
/// stakes and nothing gained; what the old epoch gained is kept under its number.
pub proof fn law_absorb(
    s: StabilityState,
    env: Context,
    engine: Address,
    debt: i128,
    coll: i128,
    coll_token: Address,
    loss: int,
    fall: int,
    gain: int,
)
    requires
        ({
            let pool = s.pool->0;
            &&& s.pool is Some && pool.total_deposits != 0 ==> arith::rounded_to_zero(
                loss,
                debt * 1_000_000_000_000,
                pool.total_deposits as int,
            )
            &&& arith::rounded_to_zero(fall, pool.p * loss, 1_000_000_000_000)
            &&& if 0 < s.stakes <= i128::MAX {
                arith::rounded_to_zero(gain, coll * 1_000_000_000_000, s.stakes)
            } else {
                gain == 0
            }
        }),
    ensures
        ({
            let pool = s.pool->0;
            let step = s.absorb_liquidation(env, engine, debt, coll, coll_token);
            &&& step is Ok <==> {
                &&& s.engine == Some(engine)
                &&& s.pool is Some
                &&& s.usdc is Some
                &&& !pool.paused
                &&& debt <= pool.total_deposits
                &&& pool.total_deposits != 0
                &&& arith::fits(debt * 1_000_000_000_000)
                &&& arith::fits(loss)
                &&& arith::fits(pool.p * loss)
                &&& arith::fits(fall)
                &&& arith::fits(pool.p - fall)
                &&& arith::fits(coll * 1_000_000_000_000)
                &&& arith::fits(pool.sum_coll + gain)
                &&& arith::fits(pool.total_deposits - debt)
                &&& arith::fits(pool.total_coll_gained + coll)
                &&& pool.total_liq_count < 0xffff_ffff_ffff_ffff
                &&& pool.p - fall < 1_000 ==> pool.epoch < 0xffff_ffff_ffff_ffff
            }
            &&& step matches Ok((t, effects)) ==> {
                let after = PoolState {
                    total_deposits: (pool.total_deposits - debt) as i128,
                    p: (pool.p - fall) as i128,
                    sum_coll: (pool.sum_coll + gain) as i128,
                    total_coll_gained: (pool.total_coll_gained + coll) as i128,
                    total_liq_count: (pool.total_liq_count + 1) as u64,
                    ..pool
                };
                &&& pool.p - fall >= 1_000 ==> t == (StabilityState { pool: Some(after), ..s })
                &&& pool.p - fall < 1_000 ==> t == (StabilityState {
                    pool: Some(
                        PoolState {
                            p: 1_000_000_000_000,
                            epoch: (pool.epoch + 1) as u64,
                            scale: 0,
                            sum_coll: 0,
                            ..after
                        },
                    ),
                    stakes: 0,
                    epoch_sums: s.epoch_sums.insert(pool.epoch, after.sum_coll),
                    ..s
                })
                &&& effects == seq![
                    Effect::RequireAuth(engine),
                    Effect::Transfer {
                        token: coll_token,
                        from: engine,
                        to: env.contract,
                        amount: coll,
                    },
                    Effect::Transfer {
                        token: s.usdc->0,
                        from: env.contract,
                        to: engine,
                        amount: debt,
                    },
                    Effect::Absorb(
                        AbsorbLiquidationEvent {
                            engine,
                            debt_absorbed: debt,
                            collateral_reward: coll,
                        },
                    ),
                ]
            }
            &&& s.engine is Some && s.engine != Some(engine) ==> step == Err::<
                (StabilityState, Seq<Effect>),
                Error,
            >(Error::OnlyEngine)
            &&& s.engine == Some(engine) && s.pool is Some && !pool.paused && debt
                > pool.total_deposits ==> step == Err::<(StabilityState, Seq<Effect>), Error>(
                Error::InsufficientPoolDepth,
            )
        }),
{
    let pool = s.pool->0;
    if s.pool is Some && pool.total_deposits != 0 {
        arith::lemma_rounded_to_zero(
            loss,
            debt * 1_000_000_000_000,
            pool.total_deposits as int,
        );
    }
    arith::lemma_rounded_to_zero(fall, pool.p * loss, 1_000_000_000_000);
    if 0 < s.stakes <= i128::MAX {
        arith::lemma_rounded_to_zero(gain, coll * 1_000_000_000_000, s.stakes);
    }
}

/// Setting up stores every address and an empty pool whose product is one, and
/// works once. The admin pauses the pool, the DAO names the registry and lets
/// the code be replaced; each changes the one thing that it is about.
pub proof fn law_setup(
    s: StabilityState,
    admin: Address,
    usdc: Address,
    engine: Address,
    dao: Address,
    compliance: Address,
    paused: bool,
    hash: WasmHash,
)
    ensures
        s.initialize(admin, usdc, engine, dao, compliance) is Ok <==> s.admin is None,
        s.initialize(admin, usdc, engine, dao, compliance) matches Ok((t, effects)) ==> {
            &&& effects == seq![Effect::RequireAuth(admin)]
            &&& t == (StabilityState {
                admin: Some(admin),
                usdc: Some(usdc),
                engine: Some(engine),
                dao: Some(dao),
                compliance: Some(compliance),
                pool: Some(
                    PoolState {
                        total_deposits: 0,
                        p: 1_000_000_000_000,
                        epoch: 0,
                        scale: 0,
                        sum_coll: 0,
                        total_coll_gained: 0,
                        total_liq_count: 0,
                        paused: false,
                    },
                ),
                ..s
            })
        },
        s.set_paused(admin, paused) is Ok <==> s.admin == Some(admin) && s.pool is Some,
        s.set_paused(admin, paused) matches Ok((t, effects)) ==> {
            &&& effects == seq![Effect::RequireAuth(admin)]
            &&& t == (StabilityState { pool: Some(PoolState { paused, ..s.pool->0 }), ..s })
        },
        s.set_compliance(dao, compliance) is Ok <==> s.dao == Some(dao),
        s.set_compliance(dao, compliance) matches Ok((t, effects)) ==> {
            &&& effects == seq![Effect::RequireAuth(dao)]
            &&& t == (StabilityState { compliance: Some(compliance), ..s })
        },
        s.admin is Some ==> {
            &&& s.initialize(admin, usdc, engine, dao, compliance) matches Err(e) && e
                == Error::AlreadyInitialised
            &&& s.admin != Some(admin) ==> (s.set_paused(admin, paused) matches Err(e) && e
                == Error::AdminOnly)
        },
        s.dao is Some && s.dao != Some(dao) ==> (s.set_compliance(dao, compliance) matches Err(e)
            && e == Error::DaoOnly),
        s.upgrade(hash) is Ok <==> s.dao is Some,
        s.upgrade(hash) matches Ok((t, effects)) ==> t == s && effects == seq![
            Effect::RequireAuth(s.dao->0),
            Effect::UpdateWasm(hash),
        ],
        ({
            let b = StabilityState::blank();
            &&& b.admin is None && b.usdc is None && b.engine is None && b.dao is None
            &&& b.compliance is None && b.pool is None && b.stakes == 0
            &&& b.deposits == Map::<Address, Deposit>::empty()
            &&& b.epoch_sums == Map::<u64, i128>::empty()
        }),
{
}

} // verus!
