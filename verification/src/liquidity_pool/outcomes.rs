//! What the calls on the pools give and leave, told from the numbers that a
//! pool and a position hold.
use crate::arith;
use crate::error::Error;
use crate::liquidity_pool::model;
use crate::liquidity_pool::model::LiquidityState;
use crate::liquidity_pool::{
    AddLiquidityEvent, ClaimFeesEvent, Effect, LpPosition, Pool, RemoveLiquidityEvent, SwapEvent,
};
use crate::types::{Address, Context, Symbol, WasmHash};
use vstd::prelude::*;

verus! {

/// What a position has claimable of one token: what is pending, and its part
/// of the fees per share that came since it was last settled.
pub open spec fn earned(claim: int, pending: int, accum: int, debt: int, shares: int) -> bool {
    arith::rounded_down(claim - pending, (accum - debt) * shares, 1_000_000_000_000)
}

/// How fees are paid out: a transfer for each token that there is anything of,
/// and a notice; nothing where there is nothing.
pub open spec fn fees_paid(
    env: Context,
    provider: Address,
    pool_id: Symbol,
    pool: Pool,
    a: i128,
    b: i128,
) -> Seq<Effect> {
    let from = env.contract;
    let to_a = Effect::Transfer { token: pool.token_a, from, to: provider, amount: a };
    let to_b = Effect::Transfer { token: pool.token_b, from, to: provider, amount: b };
    let notice = Effect::ClaimFees(ClaimFeesEvent { provider, pool_id, claim_a: a, claim_b: b });
    if a > 0 && b > 0 {
        seq![to_a, to_b, notice]
    } else if a > 0 {
        seq![to_a, notice]
    } else if b > 0 {
        seq![to_b, notice]
    } else {
        Seq::empty()
    }
}

/// What a user's call starts with: the user's word, and the check of the user.
pub open spec fn checked(s: LiquidityState, env: Context, user: Address) -> Seq<Effect> {
    seq![
        Effect::RequireAuth(user),
        Effect::AssertUserCompliant { registry: s.compliance->0, caller: env.contract, user },
    ]
}

proof fn lemma_fee_of(pool: Pool, amount_in: int, fee: int)
    requires
        pool.sound(),
        amount_in >= 0,
        arith::rounded_down(fee, amount_in * pool.fee_tier, 10_000),
    ensures
        fee == pool.fee(amount_in),
        0 <= fee <= amount_in,
{
    assert(0 <= amount_in * pool.fee_tier <= amount_in * 10_000) by (nonlinear_arith)
        requires
            amount_in >= 0,
            0 <= pool.fee_tier <= 10_000,
    ;
    arith::lemma_rounded_down(fee, amount_in * pool.fee_tier, 10_000);
    assert(fee <= amount_in) by (nonlinear_arith)
        requires
            fee * 10_000 <= amount_in * 10_000,
    ;
}

proof fn lemma_output_of(pool: Pool, amount_in: int, a_to_b: bool, fee: int)
    requires
        pool.sound(),
        amount_in >= 0,
        arith::rounded_down(fee, amount_in * pool.fee_tier, 10_000),
        pool.output_defined(amount_in, a_to_b),
    ensures
        ({
            let (held, wanted) = if a_to_b {
                (pool.reserve_a as int, pool.reserve_b as int)
            } else {
                (pool.reserve_b as int, pool.reserve_a as int)
            };
            &&& arith::rounded_down(
                pool.output(amount_in, a_to_b),
                wanted * (amount_in - fee),
                held + amount_in - fee,
            )
            &&& pool.output(amount_in, a_to_b) >= 0
        }),
{
    lemma_fee_of(pool, amount_in, fee);
    let (held, wanted) = if a_to_b {
        (pool.reserve_a as int, pool.reserve_b as int)
    } else {
        (pool.reserve_b as int, pool.reserve_a as int)
    };
    assert(wanted * (amount_in - fee) >= 0) by (nonlinear_arith)
        requires
            wanted >= 0,
            amount_in - fee >= 0,
    ;
    arith::lemma_rounded_down(0, wanted * (amount_in - fee), held + amount_in - fee);
}

/// A quote: the fee is the pool's own tier of the amount, rounded down, and what
/// comes out is the part of the other reserve that the rest of the amount is of
/// the reserve it joins, rounded down.
pub proof fn law_quote(
    s: LiquidityState,
    pool_id: Symbol,
    amount_in: i128,
    a_to_b: bool,
    fee: int,
)
    requires
        s.sound(),
        s.pools.contains_key(pool_id),
        amount_in > 0,
        fee * 10_000 <= amount_in * s.pools[pool_id].fee_tier < (fee + 1) * 10_000,
    ensures
        ({
            let pool = s.pools[pool_id];
            let (held, wanted) = if a_to_b {
                (pool.reserve_a, pool.reserve_b)
            } else {
                (pool.reserve_b, pool.reserve_a)
            };
            &&& s.quote(pool_id, amount_in, a_to_b) matches Ok(out) ==> out * (held + amount_in
                - fee) <= wanted * (amount_in - fee) < (out + 1) * (held + amount_in - fee)
            &&& amount_in <= 1_000_000_000_000_000_000 && held <= 1_000_000_000_000_000_000
                && wanted <= 1_000_000_000_000_000_000 ==> s.quote(pool_id, amount_in, a_to_b) is Ok
        }),
{
    let pool = s.pools[pool_id];
    let amount = amount_in as int;
    lemma_fee_of(pool, amount, fee);
    if s.quote(pool_id, amount_in, a_to_b) is Ok {
        lemma_output_of(pool, amount, a_to_b, fee);
    }
    lemma_quote_in_range(pool, amount, a_to_b, fee);
}

/// Amounts of a common size can be quoted.
proof fn lemma_quote_in_range(pool: Pool, amount: int, a_to_b: bool, fee: int)
    requires
        pool.sound(),
        amount > 0,
        arith::rounded_down(fee, amount * pool.fee_tier, 10_000),
    ensures
        amount <= 1_000_000_000_000_000_000 && pool.reserve_a <= 1_000_000_000_000_000_000
            && pool.reserve_b <= 1_000_000_000_000_000_000 ==> pool.output_defined(amount, a_to_b),
{
    lemma_fee_of(pool, amount, fee);
    let big: int = 1_000_000_000_000_000_000;
    if amount <= big && pool.reserve_a <= big && pool.reserve_b <= big {
        let held = pool.reserve_in(a_to_b);
        let wanted = pool.reserve_out(a_to_b);
        let net = amount - fee;
        assert(0 <= amount * pool.fee_tier <= big * 10_000) by (nonlinear_arith)
            requires
                0 < amount <= big,
                0 <= pool.fee_tier <= 10_000,
        ;
        assert(0 <= wanted * net <= big * big) by (nonlinear_arith)
            requires
                0 <= wanted <= big,
                0 <= net <= big,
        ;
        assert(fee < amount) by (nonlinear_arith)
            requires
                fee * 10_000 <= amount * pool.fee_tier,
                pool.fee_tier <= 100,
                amount > 0,
        ;
        arith::lemma_quot_range(wanted * net, held + net);
    }
}

/// A swap: the trader pays the amount in and gets what the quote says, which is
/// at most a hundredth of the reserve and no less than was asked for. The
/// protocol gets its part of the fee, rounded down, and the rest of the fee is
/// shared out over all shares. Nothing else changes.
pub proof fn law_swap(
    s: LiquidityState,
    env: Context,
    trader: Address,
    pool_id: Symbol,
    a_to_b: bool,
    amount_in: i128,
    min_out: i128,
    partner_id: u32,
    fee: int,
    cut: int,
)
    requires
        s.sound(),
        fee * 10_000 <= amount_in * s.pools[pool_id].fee_tier < (fee + 1) * 10_000,
        cut * 10_000 <= fee * s.protocol_fee < (cut + 1) * 10_000,
    ensures
        s.swap_exact_in(env, trader, pool_id, a_to_b, amount_in, min_out, partner_id) matches Ok(
            (t, out, effects),
        ) ==> {
            let pool = s.pools[pool_id];
            let next = t.pools[pool_id];
            let (held, wanted) = if a_to_b {
                (pool.reserve_a, pool.reserve_b)
            } else {
                (pool.reserve_b, pool.reserve_a)
            };
            let (sold, bought) = if a_to_b {
                (pool.token_a, pool.token_b)
            } else {
                (pool.token_b, pool.token_a)
            };
            &&& s.pools.contains_key(pool_id) && !pool.paused && amount_in > 0
            &&& out * (held + amount_in - fee) <= wanted * (amount_in - fee) < (out + 1) * (held
                + amount_in - fee)
            &&& out >= min_out
            &&& out * 100 <= wanted
            &&& t == (LiquidityState { pools: s.pools.insert(pool_id, next), ..s })
            &&& next.token_a == pool.token_a && next.token_b == pool.token_b
            &&& next.total_shares == pool.total_shares && next.fee_tier == pool.fee_tier
            &&& !next.paused
            &&& a_to_b ==> {
                &&& next.reserve_a == pool.reserve_a + amount_in
                &&& next.reserve_b == pool.reserve_b - out
                &&& next.cumulative_vol_a == pool.cumulative_vol_a + amount_in
                &&& next.cumulative_vol_b == pool.cumulative_vol_b
                &&& next.fee_b_accum == pool.fee_b_accum
                &&& pool.total_shares > 0 ==> arith::rounded_down(
                    next.fee_a_accum - pool.fee_a_accum,
                    (fee - cut) * 1_000_000_000_000,
                    pool.total_shares as int,
                )
                &&& pool.total_shares <= 0 ==> next.fee_a_accum == pool.fee_a_accum
            }
            &&& !a_to_b ==> {
                &&& next.reserve_b == pool.reserve_b + amount_in
                &&& next.reserve_a == pool.reserve_a - out
                &&& next.cumulative_vol_b == pool.cumulative_vol_b + amount_in
                &&& next.cumulative_vol_a == pool.cumulative_vol_a
                &&& next.fee_a_accum == pool.fee_a_accum
                &&& pool.total_shares > 0 ==> arith::rounded_down(
                    next.fee_b_accum - pool.fee_b_accum,
                    (fee - cut) * 1_000_000_000_000,
                    pool.total_shares as int,
                )
                &&& pool.total_shares <= 0 ==> next.fee_b_accum == pool.fee_b_accum
            }
            &&& effects.len() == if cut > 0 {
                6int
            } else {
                5
            }
            &&& effects[0] == Effect::RequireAuth(trader)
            &&& effects[1] == (Effect::AssertUserCompliant {
                registry: s.compliance->0,
                caller: env.contract,
                user: trader,
            })
            &&& effects[2] == (Effect::Transfer {
                token: sold,
                from: trader,
                to: env.contract,
                amount: amount_in,
            })
            &&& effects[3] == (Effect::Transfer {
                token: bought,
                from: env.contract,
                to: trader,
                amount: out,
            })
            &&& cut > 0 ==> effects[4] == (Effect::ReceiveRevenue {
                distributor: s.earnings->0,
                sender: env.contract,
                token: sold,
                amount: cut as i128,
                source: Symbol { head: 0x73_77_61_70_66_65_65, tail: 0 },
                partner_id,
            })
            &&& effects.last() == Effect::Swap(
                SwapEvent { trader, pool_id, amount_in, amount_out: out, a_to_b, partner_id },
            )
        },
{
    let step = s.swap_exact_in(env, trader, pool_id, a_to_b, amount_in, min_out, partner_id);
    if step is Ok {
        let pool = s.pools[pool_id];
        let amount = amount_in as int;
        let share = s.protocol_fee as int;
        lemma_fee_of(pool, amount, fee);
        lemma_output_of(pool, amount, a_to_b, fee);
        lemma_cut_of(fee, share, cut);
        if pool.total_shares > 0 {
            arith::lemma_rounded_down(
                0,
                (fee - cut) * 1_000_000_000_000,
                pool.total_shares as int,
            );
        }
    }
}

/// The protocol's part is no more than the fee.
proof fn lemma_cut_of(fee: int, share: int, cut: int)
    requires
        fee >= 0,
        0 <= share <= 10_000,
        arith::rounded_down(cut, fee * share, 10_000),
    ensures
        cut == arith::quot(fee * share, 10_000),
        0 <= cut <= fee,
{
    assert(0 <= fee * share <= fee * 10_000) by (nonlinear_arith)
        requires
            fee >= 0,
            0 <= share <= 10_000,
    ;
    arith::lemma_rounded_down(cut, fee * share, 10_000);
    assert(cut <= fee) by (nonlinear_arith)
        requires
            cut * 10_000 <= fee * 10_000,
    ;
}

/// Where the pool is open, the amount is positive and the numbers are of a common
/// size, a swap goes through, with a distributor or where the fee is too small to
/// have a part for the protocol, unless it takes more than a hundredth of the reserve
/// or gives less than was asked for; the reserve comes first.
pub proof fn law_swap_goes_through(
    s: LiquidityState,
    env: Context,
    trader: Address,
    pool_id: Symbol,
    a_to_b: bool,
    amount_in: i128,
    min_out: i128,
    partner_id: u32,
    out: i128,
)
    requires
        s.sound(),
        s.compliance is Some,
        s.earnings is Some || amount_in * s.pools[pool_id].fee_tier * s.protocol_fee < 100_000_000,
        s.pools.contains_key(pool_id),
        !s.pools[pool_id].paused,
        0 < amount_in <= 1_000_000_000_000_000_000,
        0 < s.pools[pool_id].reserve_a <= 1_000_000_000_000_000_000,
        0 < s.pools[pool_id].reserve_b <= 1_000_000_000_000_000_000,
        s.pools[pool_id].cumulative_vol_a <= 1_000_000_000_000_000_000_000_000_000_000,
        s.pools[pool_id].cumulative_vol_b <= 1_000_000_000_000_000_000_000_000_000_000,
        s.pools[pool_id].fee_a_accum <= 1_000_000_000_000_000_000_000_000_000_000,
        s.pools[pool_id].fee_b_accum <= 1_000_000_000_000_000_000_000_000_000_000,
        s.quote(pool_id, amount_in, a_to_b) == Ok::<i128, Error>(out),
    ensures
        ({
            let wanted = if a_to_b {
                s.pools[pool_id].reserve_b
            } else {
                s.pools[pool_id].reserve_a
            };
            let step = s.swap_exact_in(
                env,
                trader,
                pool_id,
                a_to_b,
                amount_in,
                min_out,
                partner_id,
            );
            &&& out * 100 > wanted ==> step == Err::<(LiquidityState, i128, Seq<Effect>), Error>(
                Error::PriceImpactTooHigh,
            )
            &&& out * 100 <= wanted && out < min_out ==> step == Err::<
                (LiquidityState, i128, Seq<Effect>),
                Error,
            >(Error::OutputBelowMinimum)
            &&& out * 100 <= wanted && out >= min_out ==> step is Ok
        }),
{
    let pool = s.pools[pool_id];
    let amount = amount_in as int;
    let share = s.protocol_fee as int;
    assert(0 <= amount * pool.fee_tier) by (nonlinear_arith)
        requires
            amount > 0,
            0 <= pool.fee_tier,
    ;
    let fee = pool.fee(amount);
    arith::lemma_rounded_down(fee, amount * pool.fee_tier, 10_000);
    lemma_fee_of(pool, amount, fee);
    lemma_output_of(pool, amount, a_to_b, fee);
    assert(0 <= fee * share <= fee * 10_000) by (nonlinear_arith)
        requires
            fee >= 0,
            0 <= share <= 10_000,
    ;
    let cut = arith::quot(fee * share, 10_000);
    arith::lemma_rounded_down(cut, fee * share, 10_000);
    lemma_cut_of(fee, share, cut);
    if amount * pool.fee_tier * share < 100_000_000 {
        let x = amount * pool.fee_tier;
        assert(fee * share < 10_000) by (nonlinear_arith)
            requires
                fee * 10_000 <= x,
                x * share < 100_000_000,
                share >= 0,
        ;
    }
    if pool.total_shares > 0 {
        arith::lemma_quot_range((fee - cut) * 1_000_000_000_000, pool.total_shares as int);
    }
    let (held, wanted) = if a_to_b {
        (pool.reserve_a as int, pool.reserve_b as int)
    } else {
        (pool.reserve_b as int, pool.reserve_a as int)
    };
    law_quote(s, pool_id, amount_in, a_to_b, fee);
    let net = amount - fee;
    assert(out <= wanted) by (nonlinear_arith)
        requires
            out * (held + net) <= wanted * net,
            held > 0,
            net >= 0,
            wanted >= 0,
    ;
}

/// The price of one token is how much of the other the pool holds for it.
pub proof fn law_price(s: LiquidityState, pool_id: Symbol, a_to_b: bool)
    requires
        s.sound(),
        s.pools.contains_key(pool_id),
    ensures
        ({
            let pool = s.pools[pool_id];
            let (held, wanted) = if a_to_b {
                (pool.reserve_a, pool.reserve_b)
            } else {
                (pool.reserve_b, pool.reserve_a)
            };
            &&& s.get_price(pool_id, a_to_b) matches Ok(price) ==> price * held <= wanted
                * 10_000_000 < (price + 1) * held
            &&& 0 < held && wanted <= 1_000_000_000_000_000_000_000_000_000_000 ==> s.get_price(
                pool_id,
                a_to_b,
            ) is Ok
        }),
{
    let pool = s.pools[pool_id];
    let (held, wanted) = if a_to_b {
        (pool.reserve_a, pool.reserve_b)
    } else {
        (pool.reserve_b, pool.reserve_a)
    };
    if held > 0 {
        arith::lemma_quot_range(wanted * 10_000_000, held as int);
    }
}

/// What a provider can claim is what is pending, and the part of the fees per
/// share since then that its shares make.
pub proof fn law_claimable(s: LiquidityState, pool_id: Symbol, provider: Address)
    requires
        s.sound(),
        s.pools.contains_key(pool_id),
    ensures
        ({
            let pool = s.pools[pool_id];
            let position = s.positions[(pool_id, provider)];
            &&& !s.positions.contains_key((pool_id, provider)) ==> s.claimable_fees(
                pool_id,
                provider,
            ) == Ok::<(i128, i128), Error>((0, 0))
            &&& s.positions.contains_key((pool_id, provider)) ==> (s.claimable_fees(
                pool_id,
                provider,
            ) matches Ok((a, b)) ==> {
                &&& earned(
                    a as int,
                    position.pending_a as int,
                    pool.fee_a_accum as int,
                    position.fee_a_debt as int,
                    position.shares as int,
                )
                &&& earned(
                    b as int,
                    position.pending_b as int,
                    pool.fee_b_accum as int,
                    position.fee_b_debt as int,
                    position.shares as int,
                )
            })
        }),
{
    if s.positions.contains_key((pool_id, provider)) {
        let pool = s.pools[pool_id];
        let position = s.positions[(pool_id, provider)];
        let a = (pool.fee_a_accum - position.fee_a_debt) * position.shares;
        let b = (pool.fee_b_accum - position.fee_b_debt) * position.shares;
        assert(a >= 0 && b >= 0) by (nonlinear_arith)
            requires
                position.shares >= 0,
                pool.fee_a_accum >= position.fee_a_debt,
                pool.fee_b_accum >= position.fee_b_debt,
                a == (pool.fee_a_accum - position.fee_a_debt) * position.shares,
                b == (pool.fee_b_accum - position.fee_b_debt) * position.shares,
        ;
        arith::lemma_rounded_down(0, a, 1_000_000_000_000);
        arith::lemma_rounded_down(0, b, 1_000_000_000_000);
    }
}

/// Adding liquidity: the first deposit earns the geometric mean of the two
/// amounts, less a thousand shares that nobody owns; a later one as many shares
/// as the smaller of the parts that the two amounts add to their reserves. The
/// provider pays both amounts and holds the new shares; nothing else changes.
pub proof fn law_add_liquidity(
    s: LiquidityState,
    env: Context,
    provider: Address,
    pool_id: Symbol,
    amount_a: i128,
    amount_b: i128,
    min_shares: i128,
)
    requires
        s.sound(),
    ensures
        s.add_liquidity(env, provider, pool_id, amount_a, amount_b, min_shares) matches Ok(
            (t, shares, effects),
        ) ==> {
            let pool = s.pools[pool_id];
            let next = t.pools[pool_id];
            let key = (pool_id, provider);
            let position = t.positions[key];
            &&& s.pools.contains_key(pool_id) && !pool.paused && amount_a > 0 && amount_b > 0
            &&& shares >= min_shares
            &&& pool.total_shares == 0 ==> {
                &&& shares > 0
                &&& (shares + 1_000) * (shares + 1_000) <= amount_a * amount_b
                &&& amount_a * amount_b < (shares + 1_001) * (shares + 1_001)
            }
            &&& pool.total_shares != 0 ==> {
                &&& shares * pool.reserve_a <= amount_a * pool.total_shares
                &&& shares * pool.reserve_b <= amount_b * pool.total_shares
                &&& amount_a * pool.total_shares < (shares + 1) * pool.reserve_a || amount_b
                    * pool.total_shares < (shares + 1) * pool.reserve_b
            }
            &&& next == (Pool {
                reserve_a: (pool.reserve_a + amount_a) as i128,
                reserve_b: (pool.reserve_b + amount_b) as i128,
                total_shares: next.total_shares,
                ..pool
            })
            &&& next.reserve_a == pool.reserve_a + amount_a
            &&& next.reserve_b == pool.reserve_b + amount_b
            &&& next.total_shares - pool.total_shares == if pool.total_shares == 0 {
                shares + 1_000
            } else {
                shares as int
            }
            &&& t == (LiquidityState {
                pools: s.pools.insert(pool_id, next),
                positions: s.positions.insert(key, position),
                ..s
            })
            &&& position.shares == shares + (if s.positions.contains_key(key) {
                s.positions[key].shares as int
            } else {
                0
            })
            &&& position.deposited_at == if s.positions.contains_key(key) {
                s.positions[key].deposited_at
            } else {
                env.timestamp
            }
            &&& position.fee_a_debt == pool.fee_a_accum && position.fee_b_debt == pool.fee_b_accum
            &&& effects == seq![
                Effect::RequireAuth(provider),
                Effect::AssertUserCompliant {
                    registry: s.compliance->0,
                    caller: env.contract,
                    user: provider,
                },
                Effect::Transfer {
                    token: pool.token_a,
                    from: provider,
                    to: env.contract,
                    amount: amount_a,
                },
                Effect::Transfer {
                    token: pool.token_b,
                    from: provider,
                    to: env.contract,
                    amount: amount_b,
                },
                Effect::AddLiquidity(
                    AddLiquidityEvent { provider, pool_id, amount_a, amount_b, shares },
                ),
            ]
        },
{
    let step = s.add_liquidity(env, provider, pool_id, amount_a, amount_b, min_shares);
    if step is Ok {
        let pool = s.pools[pool_id];
        let (t, shares, effects) = step->Ok_0;
        assert(amount_a * amount_b > 0) by (nonlinear_arith)
            requires
                amount_a > 0,
                amount_b > 0,
        ;
        if pool.total_shares == 0 {
            lemma_root_exists(amount_a * amount_b);
        } else {
            assert(amount_a * pool.total_shares > 0 && amount_b * pool.total_shares > 0)
                by (nonlinear_arith)
                requires
                    amount_a > 0,
                    amount_b > 0,
                    pool.total_shares > 0,
            ;
            let x = arith::quot(amount_a * pool.total_shares, pool.reserve_a as int);
            let y = arith::quot(amount_b * pool.total_shares, pool.reserve_b as int);
            arith::lemma_quot_range(amount_a * pool.total_shares, pool.reserve_a as int);
            arith::lemma_quot_range(amount_b * pool.total_shares, pool.reserve_b as int);
            assert(shares * pool.reserve_a <= amount_a * pool.total_shares && shares
                * pool.reserve_b <= amount_b * pool.total_shares) by (nonlinear_arith)
                requires
                    shares <= x,
                    shares <= y,
                    x * pool.reserve_a <= amount_a * pool.total_shares,
                    y * pool.reserve_b <= amount_b * pool.total_shares,
                    pool.reserve_a > 0,
                    pool.reserve_b > 0,
            ;
        }
    }
}

/// Every number that is not negative has a root, rounded down.
proof fn lemma_root_exists(x: int)
    requires
        x >= 0,
    ensures
        exists|r: int| model::is_root(x, r),
    decreases x,
{
    if x == 0 {
        assert(model::is_root(0, 0));
    } else {
        let y = x - 1;
        lemma_root_exists(y);
        let r = choose|r: int| model::is_root(y, r);
        if x < (r + 1) * (r + 1) {
            assert(model::is_root(x, r));
        } else {
            assert(x < (r + 2) * (r + 2)) by (nonlinear_arith)
                requires
                    x - 1 < (r + 1) * (r + 1),
                    r >= 0,
            ;
            assert(model::is_root(x, r + 1));
        }
    }
}

/// Adding liquidity changes nothing of what the provider can claim.
pub proof fn law_adding_keeps_fees(
    s: LiquidityState,
    env: Context,
    provider: Address,
    pool_id: Symbol,
    amount_a: i128,
    amount_b: i128,
    min_shares: i128,
)
    requires
        s.sound(),
    ensures
        s.add_liquidity(env, provider, pool_id, amount_a, amount_b, min_shares) matches Ok((t, _, _))
            ==> t.claimable_fees(pool_id, provider) == s.claimable_fees(pool_id, provider),
{
    let step = s.add_liquidity(env, provider, pool_id, amount_a, amount_b, min_shares);
    if step is Ok {
        let t = step->Ok_0.0;
        let key = (pool_id, provider);
        let position = t.positions[key];
        assert(0 * position.shares == 0) by (nonlinear_arith);
        if s.positions.contains_key(key) {
            let before = s.positions[key];
            let pool = s.pools[pool_id];
            assert((pool.fee_a_accum - before.fee_a_debt) * 0 == 0 && (pool.fee_b_accum
                - before.fee_b_debt) * 0 == 0) by (nonlinear_arith);
        }
    }
}

/// Removing liquidity pays each reserve's part for the shares, rounded down, and
/// what the position could claim; the shares are gone, and nothing is left to
/// claim.
pub proof fn law_remove_liquidity(
    s: LiquidityState,
    env: Context,
    provider: Address,
    pool_id: Symbol,
    shares: i128,
    min_a: i128,
    min_b: i128,
)
    requires
        s.sound(),
        shares >= 0,
    ensures
        s.remove_liquidity(env, provider, pool_id, shares, min_a, min_b) matches Ok(
            (t, (out_a, out_b), effects),
        ) ==> {
            let pool = s.pools[pool_id];
            let next = t.pools[pool_id];
            let key = (pool_id, provider);
            let before = s.positions[key];
            let position = t.positions[key];
            &&& s.pools.contains_key(pool_id) && s.positions.contains_key(key)
            &&& shares <= before.shares
            &&& out_a * pool.total_shares <= shares * pool.reserve_a < (out_a + 1)
                * pool.total_shares
            &&& out_b * pool.total_shares <= shares * pool.reserve_b < (out_b + 1)
                * pool.total_shares
            &&& out_a >= min_a && out_b >= min_b
            &&& next.reserve_a == pool.reserve_a - out_a
            &&& next.reserve_b == pool.reserve_b - out_b
            &&& next.total_shares == pool.total_shares - shares
            &&& next == (Pool {
                reserve_a: next.reserve_a,
                reserve_b: next.reserve_b,
                total_shares: next.total_shares,
                ..pool
            })
            &&& t == (LiquidityState {
                pools: s.pools.insert(pool_id, next),
                positions: s.positions.insert(key, position),
                ..s
            })
            &&& position.shares == before.shares - shares
            &&& position.pending_a == 0 && position.pending_b == 0
            &&& position.deposited_at == before.deposited_at
            &&& before.shares != 0 ==> position.fee_a_debt == pool.fee_a_accum
                && position.fee_b_debt == pool.fee_b_accum
            &&& before.shares == 0 ==> position.fee_a_debt == before.fee_a_debt
                && position.fee_b_debt == before.fee_b_debt
            &&& t.claimable_fees(pool_id, provider) == Ok::<(i128, i128), Error>((0, 0))
            &&& s.claimable_fees(pool_id, provider) matches Ok((a, b)) && effects == checked(
                s,
                env,
                provider,
            ) + fees_paid(env, provider, pool_id, pool, a, b) + seq![
                Effect::Transfer {
                    token: pool.token_a,
                    from: env.contract,
                    to: provider,
                    amount: out_a,
                },
                Effect::Transfer {
                    token: pool.token_b,
                    from: env.contract,
                    to: provider,
                    amount: out_b,
                },
                Effect::RemoveLiquidity(
                    RemoveLiquidityEvent { provider, pool_id, out_a, out_b, shares },
                ),
            ]
        },
{
    let step = s.remove_liquidity(env, provider, pool_id, shares, min_a, min_b);
    if step is Ok {
        let (t, (out_a, out_b), effects) = step->Ok_0;
        let pool = s.pools[pool_id];
        let key = (pool_id, provider);
        let position = s.positions[key];
        let left = t.positions[key];
        assert(shares * pool.reserve_a >= 0 && shares * pool.reserve_b >= 0) by (nonlinear_arith)
            requires
                shares >= 0,
                pool.reserve_a >= 0,
                pool.reserve_b >= 0,
        ;
        arith::lemma_rounded_down(0, shares * pool.reserve_a, pool.total_shares as int);
        arith::lemma_rounded_down(0, shares * pool.reserve_b, pool.total_shares as int);
        lemma_claim(s, pool_id, provider);
        let settled = s.settled(pool_id, provider)->0;
        lemma_nothing_left(t.pools[pool_id], left);
        assert(effects =~= checked(s, env, provider) + fees_paid(
            env,
            provider,
            pool_id,
            pool,
            settled.pending_a,
            settled.pending_b,
        ) + effects.skip(effects.len() - 3));
    }
}

/// A position that was just settled and paid out has nothing to claim.
proof fn lemma_nothing_left(pool: Pool, position: LpPosition)
    requires
        position.pending_a == 0,
        position.pending_b == 0,
        position.shares == 0 || (position.fee_a_debt == pool.fee_a_accum && position.fee_b_debt
            == pool.fee_b_accum),
        arith::fits(pool.fee_a_accum - position.fee_a_debt),
        arith::fits(pool.fee_b_accum - position.fee_b_debt),
    ensures
        position.claimable_defined(pool),
        position.claimable(pool) == (0int, 0int),
{
    assert((pool.fee_a_accum - position.fee_a_debt) * position.shares == 0 && (pool.fee_b_accum
        - position.fee_b_debt) * position.shares == 0) by (nonlinear_arith)
        requires
            position.shares == 0 || (position.fee_a_debt == pool.fee_a_accum && position.fee_b_debt
                == pool.fee_b_accum),
    ;
}

/// What a position has pending once it is settled is what it could claim.
proof fn lemma_claim(s: LiquidityState, pool_id: Symbol, provider: Address)
    requires
        s.sound(),
        s.pools.contains_key(pool_id),
        s.positions.contains_key((pool_id, provider)),
        s.settling_defined(pool_id, provider),
    ensures
        s.claimable_fees(pool_id, provider) == Ok::<(i128, i128), Error>(
            (
                s.settled(pool_id, provider)->0.pending_a,
                s.settled(pool_id, provider)->0.pending_b,
            ),
        ),
        s.settled(pool_id, provider)->0.pending_a >= 0,
        s.settled(pool_id, provider)->0.pending_b >= 0,
{
    let pool = s.pools[pool_id];
    let position = s.positions[(pool_id, provider)];
    let a = (pool.fee_a_accum - position.fee_a_debt) * position.shares;
    let b = (pool.fee_b_accum - position.fee_b_debt) * position.shares;
    assert(a >= 0 && b >= 0 && (position.shares == 0 ==> a == 0 && b == 0)) by (nonlinear_arith)
        requires
            position.shares >= 0,
            pool.fee_a_accum >= position.fee_a_debt,
            pool.fee_b_accum >= position.fee_b_debt,
            a == (pool.fee_a_accum - position.fee_a_debt) * position.shares,
            b == (pool.fee_b_accum - position.fee_b_debt) * position.shares,
    ;
    arith::lemma_quot_range(a, 1_000_000_000_000);
    arith::lemma_quot_range(b, 1_000_000_000_000);
}

/// Claiming pays out what could be claimed, of each token, and changes nothing
/// but that there is nothing left to claim.
pub proof fn law_claim_fees(s: LiquidityState, env: Context, provider: Address, pool_id: Symbol)
    requires
        s.sound(),
    ensures
        s.claim_fees(env, provider, pool_id) matches Ok((t, (a, b), effects)) ==> {
            let key = (pool_id, provider);
            &&& s.claimable_fees(pool_id, provider) == Ok::<(i128, i128), Error>((a, b))
            &&& t.claimable_fees(pool_id, provider) == Ok::<(i128, i128), Error>((0, 0))
            &&& effects == checked(s, env, provider) + fees_paid(
                env,
                provider,
                pool_id,
                s.pools[pool_id],
                a,
                b,
            )
            &&& !s.positions.contains_key(key) ==> t == s
            &&& s.positions.contains_key(key) ==> {
                &&& t == (LiquidityState {
                    positions: s.positions.insert(key, t.positions[key]),
                    ..s
                })
                &&& t.positions[key].shares == s.positions[key].shares
                &&& t.positions[key].deposited_at == s.positions[key].deposited_at
                &&& t.positions[key].pending_a == 0 && t.positions[key].pending_b == 0
                &&& s.positions[key].shares != 0 ==> t.positions[key].fee_a_debt
                    == s.pools[pool_id].fee_a_accum && t.positions[key].fee_b_debt
                    == s.pools[pool_id].fee_b_accum
                &&& s.positions[key].shares == 0 ==> t.positions[key].fee_a_debt
                    == s.positions[key].fee_a_debt && t.positions[key].fee_b_debt
                    == s.positions[key].fee_b_debt
            }
        },
        s.compliance is Some && s.pools.contains_key(pool_id) && s.claimable_fees(
            pool_id,
            provider,
        ) is Ok ==> s.claim_fees(env, provider, pool_id) is Ok,
{
    let step = s.claim_fees(env, provider, pool_id);
    let key = (pool_id, provider);
    if step is Ok && s.positions.contains_key(key) {
        lemma_claim(s, pool_id, provider);
        lemma_nothing_left(s.pools[pool_id], step->Ok_0.0.positions[key]);
        assert(step->Ok_0.2 =~= checked(s, env, provider) + fees_paid(
            env,
            provider,
            pool_id,
            s.pools[pool_id],
            step->Ok_0.1.0,
            step->Ok_0.1.1,
        ));
    }
}

/// Deposits of a common size are taken: the first where it earns any share
/// beyond those that nobody owns, and a later one where it earns as many as were
/// asked for.
pub proof fn law_deposits_are_taken(
    s: LiquidityState,
    env: Context,
    provider: Address,
    pool_id: Symbol,
    amount_a: i128,
    amount_b: i128,
    min_shares: i128,
)
    requires
        s.sound(),
        s.compliance is Some,
        s.pools.contains_key(pool_id),
        !s.pools[pool_id].paused,
        0 < amount_a <= 1_000_000_000_000_000_000,
        0 < amount_b <= 1_000_000_000_000_000_000,
        s.pools[pool_id].reserve_a <= 1_000_000_000_000_000_000,
        s.pools[pool_id].reserve_b <= 1_000_000_000_000_000_000,
        s.pools[pool_id].total_shares <= 1_000_000_000_000_000_000,
        s.pools[pool_id].total_shares != 0 ==> s.pools[pool_id].reserve_a > 0
            && s.pools[pool_id].reserve_b > 0,
        s.positions.contains_key((pool_id, provider)) ==> s.positions[(pool_id, provider)].shares
            <= 1_000_000_000_000_000_000,
        s.claimable_fees(pool_id, provider) is Ok,
        s.pools[pool_id].total_shares == 0 ==> (if min_shares > 1 {
            min_shares + 1_000
        } else {
            1_001
        }) * (if min_shares > 1 {
            min_shares + 1_000
        } else {
            1_001
        }) <= amount_a * amount_b,
        s.pools[pool_id].total_shares != 0 ==> min_shares * s.pools[pool_id].reserve_a <= amount_a
            * s.pools[pool_id].total_shares && min_shares * s.pools[pool_id].reserve_b <= amount_b
            * s.pools[pool_id].total_shares,
    ensures
        s.add_liquidity(env, provider, pool_id, amount_a, amount_b, min_shares) is Ok,
{
    let pool = s.pools[pool_id];
    let big: int = 1_000_000_000_000_000_000;
    let shares = pool.shares_for(amount_a as int, amount_b as int);
    assert(0 < amount_a * amount_b <= big * big) by (nonlinear_arith)
        requires
            0 < amount_a <= big,
            0 < amount_b <= big,
    ;
    if pool.total_shares == 0 {
        let root = shares + 1_000;
        let least = if min_shares > 1 {
            min_shares + 1_000
        } else {
            1_001
        };
        assert(least * least > 2) by (nonlinear_arith)
            requires
                least >= 1_001,
        ;
        lemma_root_exists(amount_a * amount_b);
        assert(model::is_root(amount_a * amount_b, root));
        assert(root >= least) by (nonlinear_arith)
            requires
                least * least <= amount_a * amount_b,
                amount_a * amount_b < (root + 1) * (root + 1),
                root >= 0,
                least >= 0,
        ;
        assert(root <= big) by (nonlinear_arith)
            requires
                root * root <= big * big,
                root >= 0,
                big >= 0,
        ;
    } else {
        let total = pool.total_shares as int;
        assert(0 < amount_a * total <= big * big && 0 < amount_b * total <= big * big)
            by (nonlinear_arith)
            requires
                0 < amount_a <= big,
                0 < amount_b <= big,
                0 < total <= big,
        ;
        let x = arith::quot(amount_a * total, pool.reserve_a as int);
        let y = arith::quot(amount_b * total, pool.reserve_b as int);
        arith::lemma_quot_range(amount_a * total, pool.reserve_a as int);
        arith::lemma_quot_range(amount_b * total, pool.reserve_b as int);
        assert(min_shares <= x && min_shares <= y) by (nonlinear_arith)
            requires
                min_shares * pool.reserve_a <= amount_a * total,
                min_shares * pool.reserve_b <= amount_b * total,
                amount_a * total < (x + 1) * pool.reserve_a,
                amount_b * total < (y + 1) * pool.reserve_b,
                pool.reserve_a > 0,
                pool.reserve_b > 0,
        ;
    }
}

/// Shares can always be taken out, the pool paused or not.
pub proof fn law_shares_come_out(
    s: LiquidityState,
    env: Context,
    provider: Address,
    pool_id: Symbol,
    shares: i128,
    min_a: i128,
    min_b: i128,
)
    requires
        s.sound(),
        s.compliance is Some,
        s.pools.contains_key(pool_id),
        s.positions.contains_key((pool_id, provider)),
        0 <= shares <= s.positions[(pool_id, provider)].shares,
        s.positions[(pool_id, provider)].shares <= s.pools[pool_id].total_shares,
        0 < s.pools[pool_id].total_shares <= 1_000_000_000_000_000_000,
        s.pools[pool_id].reserve_a <= 1_000_000_000_000_000_000,
        s.pools[pool_id].reserve_b <= 1_000_000_000_000_000_000,
        s.claimable_fees(pool_id, provider) is Ok,
        min_a * s.pools[pool_id].total_shares <= shares * s.pools[pool_id].reserve_a,
        min_b * s.pools[pool_id].total_shares <= shares * s.pools[pool_id].reserve_b,
    ensures
        s.remove_liquidity(env, provider, pool_id, shares, min_a, min_b) is Ok,
{
    let pool = s.pools[pool_id];
    let big: int = 1_000_000_000_000_000_000;
    let total = pool.total_shares as int;
    let (ra, rb) = (pool.reserve_a as int, pool.reserve_b as int);
    assert(0 <= shares * ra <= big * big && 0 <= shares * rb <= big * big && shares * ra <= total
        * ra && shares * rb <= total * rb) by (nonlinear_arith)
        requires
            0 <= shares <= total,
            total <= big,
            0 <= ra <= big,
            0 <= rb <= big,
    ;
    let x = arith::quot(shares * ra, total);
    let y = arith::quot(shares * rb, total);
    arith::lemma_quot_range(shares * ra, total);
    arith::lemma_quot_range(shares * rb, total);
    assert(min_a <= x && min_b <= y) by (nonlinear_arith)
        requires
            min_a * total <= shares * ra,
            min_b * total <= shares * rb,
            shares * ra < (x + 1) * total,
            shares * rb < (y + 1) * total,
            total > 0,
    ;
}

/// A pool is created empty, with the tokens and the tier that were asked for,
/// and listed behind the others. The tiers are a twentieth, three tenths and one
/// percent.
pub proof fn law_create_pool(
    s: LiquidityState,
    creator: Address,
    pool_id: Symbol,
    token_a: Address,
    token_b: Address,
    fee_tier: i128,
)
    ensures
        s.create_pool(creator, pool_id, token_a, token_b, fee_tier) matches Ok((t, id, effects))
            ==> {
            let pool = t.pools[pool_id];
            &&& id == pool_id
            &&& pool.token_a == token_a && pool.token_b == token_b && pool.fee_tier == fee_tier
            &&& pool.reserve_a == 0 && pool.reserve_b == 0 && pool.total_shares == 0
            &&& pool.fee_a_accum == 0 && pool.fee_b_accum == 0
            &&& pool.cumulative_vol_a == 0 && pool.cumulative_vol_b == 0 && !pool.paused
            &&& t.pool_count == s.pool_count + 1
            &&& t.pool_list == s.pool_list.insert(s.pool_count, pool_id)
            &&& t == (LiquidityState {
                pools: s.pools.insert(pool_id, pool),
                pool_list: t.pool_list,
                pool_count: t.pool_count,
                ..s
            })
            &&& effects == seq![Effect::RequireAuth(creator)]
        },
        s.create_pool(creator, pool_id, token_a, token_b, fee_tier) is Ok <==> {
            &&& s.admin is Some && s.dao is Some
            &&& s.admin == Some(creator) || s.dao == Some(creator)
            &&& fee_tier == 5 || fee_tier == 30 || fee_tier == 100
            &&& !s.pools.contains_key(pool_id)
            &&& s.pool_count < u32::MAX
        },
        s.admin is Some && s.dao is Some ==> (s.create_pool(
            creator,
            pool_id,
            token_a,
            token_b,
            fee_tier,
        ) matches Err(e) ==> e == (if s.admin != Some(creator) && s.dao != Some(creator) {
            Error::AdminOrDaoOnly
        } else if fee_tier != 5 && fee_tier != 30 && fee_tier != 100 {
            Error::InvalidFeeTier
        } else if s.pools.contains_key(pool_id) {
            Error::PoolExists
        } else {
            Error::Arithmetic
        })),
{
}

/// The settings: the protocol starts with a twentieth of the fees and the DAO
/// sets it to anything up to a quarter; the admin pauses a pool; each call
/// changes what it names and nothing else.
pub proof fn law_settings(
    s: LiquidityState,
    admin: Address,
    dao: Address,
    other: Address,
    compliance: Address,
    pool_id: Symbol,
    paused: bool,
    fee_bps: i128,
)
    ensures
        s.initialize(admin, dao, other, compliance) matches Ok((t, effects)) ==> {
            &&& s.admin is None
            &&& t == (LiquidityState {
                admin: Some(admin),
                dao: Some(dao),
                earnings: Some(other),
                compliance: Some(compliance),
                protocol_fee: 500,
                pool_count: 0,
                ..s
            })
            &&& effects == seq![Effect::RequireAuth(admin)]
        },
        s.initialize(admin, dao, other, compliance) is Ok <==> s.admin is None,
        s.set_protocol_fee(dao, fee_bps) matches Ok((t, effects)) ==> t == (LiquidityState {
            protocol_fee: fee_bps,
            ..s
        }) && effects == seq![Effect::RequireAuth(dao)],
        s.set_protocol_fee(dao, fee_bps) is Ok <==> s.dao == Some(dao) && 0 <= fee_bps <= 2_500,
        s.set_compliance(dao, compliance) matches Ok((t, effects)) ==> t == (LiquidityState {
            compliance: Some(compliance),
            ..s
        }) && effects == seq![Effect::RequireAuth(dao)],
        s.set_compliance(dao, compliance) is Ok <==> s.dao == Some(dao),
        s.set_paused(admin, pool_id, paused) matches Ok((t, effects)) ==> t == (LiquidityState {
            pools: s.pools.insert(pool_id, Pool { paused, ..s.pools[pool_id] }),
            ..s
        }) && effects == seq![Effect::RequireAuth(admin)],
        s.set_paused(admin, pool_id, paused) is Ok <==> s.admin == Some(admin)
            && s.pools.contains_key(pool_id),
        s.admin is Some ==> {
            &&& s.initialize(admin, dao, other, compliance) matches Err(e) && e
                == Error::AlreadyInitialised
            &&& s.set_paused(admin, pool_id, paused) matches Err(e) ==> e == (if s.admin
                != Some(admin) {
                Error::AdminOnly
            } else {
                Error::PoolNotFound
            })
        },
        s.dao is Some ==> {
            &&& s.set_protocol_fee(dao, fee_bps) matches Err(e) ==> e == (if s.dao != Some(dao) {
                Error::DaoOnly
            } else if fee_bps > 2_500 {
                Error::ProtocolFeeTooHigh
            } else {
                Error::ProtocolFeeNegative
            })
            &&& s.set_compliance(dao, compliance) matches Err(e) ==> e == Error::DaoOnly
        },
{
}

/// What is refused before any number is looked at, and why: the first of the
/// reasons counts.
pub proof fn law_refusals(
    s: LiquidityState,
    env: Context,
    user: Address,
    pool_id: Symbol,
    a_to_b: bool,
    x: i128,
    y: i128,
    z: i128,
    partner_id: u32,
)
    ensures
        ({
            let closed = if s.compliance is None {
                Some(Error::NotInitialised)
            } else if !s.pools.contains_key(pool_id) {
                Some(Error::PoolNotFound)
            } else {
                None
            };
            let open = closed is None;
            let paused = s.pools[pool_id].paused;
            let swap = s.swap_exact_in(env, user, pool_id, a_to_b, x, y, partner_id);
            let add = s.add_liquidity(env, user, pool_id, x, y, z);
            let remove = s.remove_liquidity(env, user, pool_id, x, y, z);
            let claim = s.claim_fees(env, user, pool_id);
            &&& closed matches Some(e) ==> {
                &&& swap matches Err(f) && f == e
                &&& add matches Err(f) && f == e
                &&& remove matches Err(f) && f == e
                &&& claim matches Err(f) && f == e
            }
            &&& open && paused ==> {
                &&& swap matches Err(f) && f == Error::PoolPaused
                &&& add matches Err(f) && f == Error::PoolPaused
            }
            &&& open && !paused && x <= 0 ==> (swap matches Err(f) && f
                == Error::AmountInNotPositive)
            &&& open && !paused && (x <= 0 || y <= 0) ==> (add matches Err(f) && f
                == Error::AmountsNotPositive)
            &&& open && !s.positions.contains_key((pool_id, user)) ==> {
                &&& remove matches Err(f) && f == Error::NoPosition
                &&& claim == Ok::<(LiquidityState, (i128, i128), Seq<Effect>), Error>(
                    (s, (0, 0), checked(s, env, user)),
                )
            }
            &&& open && s.positions.contains_key((pool_id, user)) && s.claimable_fees(
                pool_id,
                user,
            ) is Ok && s.positions[(pool_id, user)].shares < x ==> (remove matches Err(f) && f
                == Error::InsufficientShares)
            &&& !s.pools.contains_key(pool_id) ==> {
                &&& s.quote(pool_id, x, a_to_b) matches Err(f) && f == Error::PoolNotFound
                &&& s.get_price(pool_id, a_to_b) matches Err(f) && f == Error::PoolNotFound
                &&& s.claimable_fees(pool_id, user) matches Err(f) && f == Error::PoolNotFound
            }
        }),
{
}

/// A deposit that earns too little is refused: the first where nothing would be
/// left beyond the shares that nobody owns, a later one where it earns fewer
/// shares than were asked for.
pub proof fn law_small_deposits(
    s: LiquidityState,
    env: Context,
    provider: Address,
    pool_id: Symbol,
    amount_a: i128,
    amount_b: i128,
    min_shares: i128,
)
    requires
        s.sound(),
        s.compliance is Some,
        s.pools.contains_key(pool_id),
        !s.pools[pool_id].paused,
        0 < amount_a <= 1_000_000_000_000_000_000,
        0 < amount_b <= 1_000_000_000_000_000_000,
        s.pools[pool_id].total_shares <= 1_000_000_000_000_000_000,
        s.pools[pool_id].total_shares != 0 ==> s.pools[pool_id].reserve_a > 0
            && s.pools[pool_id].reserve_b > 0,
        s.claimable_fees(pool_id, provider) is Ok,
    ensures
        ({
            let pool = s.pools[pool_id];
            let step = s.add_liquidity(env, provider, pool_id, amount_a, amount_b, min_shares);
            &&& pool.total_shares == 0 && amount_a * amount_b < 1_001 * 1_001 ==> (step matches Err(
                e,
            ) && e == Error::InitialLiquidityTooSmall)
            &&& pool.total_shares != 0 && (min_shares * pool.reserve_a > amount_a
                * pool.total_shares || min_shares * pool.reserve_b > amount_b * pool.total_shares)
                ==> (step matches Err(e) && e == Error::SharesBelowMinimum)
        }),
{
    let pool = s.pools[pool_id];
    let big: int = 1_000_000_000_000_000_000;
    let shares = pool.shares_for(amount_a as int, amount_b as int);
    let product = amount_a * amount_b;
    assert(0 < product <= big * big) by (nonlinear_arith)
        requires
            product == amount_a * amount_b,
            0 < amount_a <= big,
            0 < amount_b <= big,
    ;
    if pool.total_shares == 0 {
        if product != 2 && product < 1_001 * 1_001 {
            let root = shares + 1_000;
            lemma_root_exists(product);
            assert(model::is_root(product, root));
            assert(root < 1_001) by (nonlinear_arith)
                requires
                    root * root < 1_001 * 1_001,
                    root >= 0,
            ;
        }
    } else {
        let total = pool.total_shares as int;
        assert(0 < amount_a * total <= big * big && 0 < amount_b * total <= big * big)
            by (nonlinear_arith)
            requires
                0 < amount_a <= big,
                0 < amount_b <= big,
                0 < total <= big,
        ;
        let x = arith::quot(amount_a * total, pool.reserve_a as int);
        let y = arith::quot(amount_b * total, pool.reserve_b as int);
        arith::lemma_quot_range(amount_a * total, pool.reserve_a as int);
        arith::lemma_quot_range(amount_b * total, pool.reserve_b as int);
        let m = min_shares as int;
        assert(m * pool.reserve_a > amount_a * total ==> m > x) by (nonlinear_arith)
            requires
                x * pool.reserve_a <= amount_a * total,
                pool.reserve_a > 0,
        ;
        assert(m * pool.reserve_b > amount_b * total ==> m > y) by (nonlinear_arith)
            requires
                y * pool.reserve_b <= amount_b * total,
                pool.reserve_b > 0,
        ;
    }
}

/// A withdrawal that gives less than was asked for is refused, for the first
/// token before the second.
pub proof fn law_small_withdrawals(
    s: LiquidityState,
    env: Context,
    provider: Address,
    pool_id: Symbol,
    shares: i128,
    min_a: i128,
    min_b: i128,
)
    requires
        s.sound(),
        s.compliance is Some,
        s.pools.contains_key(pool_id),
        s.positions.contains_key((pool_id, provider)),
        0 <= shares <= s.positions[(pool_id, provider)].shares,
        s.positions[(pool_id, provider)].shares <= s.pools[pool_id].total_shares,
        0 < s.pools[pool_id].total_shares <= 1_000_000_000_000_000_000,
        s.pools[pool_id].reserve_a <= 1_000_000_000_000_000_000,
        s.pools[pool_id].reserve_b <= 1_000_000_000_000_000_000,
        s.claimable_fees(pool_id, provider) is Ok,
    ensures
        ({
            let pool = s.pools[pool_id];
            let short_a = min_a * pool.total_shares > shares * pool.reserve_a;
            let short_b = min_b * pool.total_shares > shares * pool.reserve_b;
            let step = s.remove_liquidity(env, provider, pool_id, shares, min_a, min_b);
            &&& short_a ==> (step matches Err(e) && e == Error::TokenABelowMinimum)
            &&& !short_a && short_b ==> (step matches Err(e) && e == Error::TokenBBelowMinimum)
        }),
{
    let pool = s.pools[pool_id];
    let big: int = 1_000_000_000_000_000_000;
    let total = pool.total_shares as int;
    let (ra, rb) = (pool.reserve_a as int, pool.reserve_b as int);
    assert(0 <= shares * ra <= big * big && 0 <= shares * rb <= big * big) by (nonlinear_arith)
        requires
            0 <= shares <= total,
            total <= big,
            0 <= ra <= big,
            0 <= rb <= big,
    ;
    let x = arith::quot(shares * ra, total);
    let y = arith::quot(shares * rb, total);
    arith::lemma_quot_range(shares * ra, total);
    arith::lemma_quot_range(shares * rb, total);
    assert(min_a > x <==> min_a * total > shares * ra) by (nonlinear_arith)
        requires
            x * total <= shares * ra < (x + 1) * total,
            total > 0,
    ;
    assert(min_b > y <==> min_b * total > shares * rb) by (nonlinear_arith)
        requires
            y * total <= shares * rb < (y + 1) * total,
            total > 0,
    ;
}

/// What is read is what is stored; the code is replaced on the word of the stored
/// DAO; at first there is nothing.
pub proof fn law_reads(s: LiquidityState, pool_id: Symbol, provider: Address, hash: WasmHash)
    ensures
        s.get_pool(pool_id) == (if s.pools.contains_key(pool_id) {
            Ok::<Pool, Error>(s.pools[pool_id])
        } else {
            Err(Error::PoolNotFound)
        }),
        s.get_lp_position(pool_id, provider) == (if s.positions.contains_key((pool_id, provider)) {
            Some(s.positions[(pool_id, provider)])
        } else {
            None
        }),
        s.upgrade(hash) is Ok <==> s.dao is Some,
        s.upgrade(hash) matches Ok((t, effects)) ==> t == s && effects == seq![
            Effect::RequireAuth(s.dao->0),
            Effect::UpdateWasm(hash),
        ],
        ({
            let b = LiquidityState::blank();
            &&& b.admin is None && b.dao is None && b.earnings is None && b.compliance is None
            &&& b.protocol_fee == 0 && b.pool_count == 0
            &&& b.pools == Map::<Symbol, Pool>::empty()
            &&& b.positions == Map::<(Symbol, Address), LpPosition>::empty()
            &&& b.pool_list == Map::<u32, Symbol>::empty()
        }),
{
}

/// Exactly which amounts can be quoted, and which prices told: those whose
/// products and sums are in range.
pub proof fn law_quotes_in_range(
    s: LiquidityState,
    pool_id: Symbol,
    amount_in: i128,
    a_to_b: bool,
    fee: int,
)
    requires
        s.sound(),
        s.pools.contains_key(pool_id),
        amount_in > 0,
        arith::rounded_down(fee, amount_in * s.pools[pool_id].fee_tier, 10_000),
    ensures
        ({
            let pool = s.pools[pool_id];
            let (held, wanted) = if a_to_b {
                (pool.reserve_a, pool.reserve_b)
            } else {
                (pool.reserve_b, pool.reserve_a)
            };
            let net = amount_in - fee;
            &&& s.quote(pool_id, amount_in, a_to_b) is Ok <==> {
                &&& arith::fits(amount_in * pool.fee_tier)
                &&& arith::fits(held + net)
                &&& arith::fits(wanted * net)
            }
            &&& s.get_price(pool_id, a_to_b) is Ok <==> held > 0 && arith::fits(
                wanted * 10_000_000,
            )
        }),
{
    let pool = s.pools[pool_id];
    let amount = amount_in as int;
    lemma_fee_of(pool, amount, fee);
    let (held, wanted) = if a_to_b {
        (pool.reserve_a as int, pool.reserve_b as int)
    } else {
        (pool.reserve_b as int, pool.reserve_a as int)
    };
    let net = amount - fee;
    lemma_net(pool, amount, fee);
    assert(wanted * net >= 0) by (nonlinear_arith)
        requires
            wanted >= 0,
            net >= 0,
    ;
    arith::lemma_quot_range(wanted * net, held + net);
    if held > 0 {
        arith::lemma_quot_range(wanted * 10_000_000, held);
    }
}

/// Something is left of an amount after the fee.
proof fn lemma_net(pool: Pool, amount: int, fee: int)
    requires
        pool.sound(),
        amount > 0,
        fee * 10_000 <= amount * pool.fee_tier,
    ensures
        fee < amount,
{
    assert(fee < amount) by (nonlinear_arith)
        requires
            fee * 10_000 <= amount * pool.fee_tier,
            pool.fee_tier <= 100,
            amount > 0,
    ;
}

/// Exactly which swaps go through, whatever the size of the numbers.
pub proof fn law_swaps_in_range(
    s: LiquidityState,
    env: Context,
    trader: Address,
    pool_id: Symbol,
    a_to_b: bool,
    amount_in: i128,
    min_out: i128,
    partner_id: u32,
    fee: int,
    cut: int,
    out: int,
    gain: int,
)
    requires
        s.sound(),
        s.pools.contains_key(pool_id),
        amount_in > 0,
        arith::rounded_down(fee, amount_in * s.pools[pool_id].fee_tier, 10_000),
        arith::rounded_down(cut, fee * s.protocol_fee, 10_000),
        ({
            let pool = s.pools[pool_id];
            let (held, wanted) = if a_to_b {
                (pool.reserve_a, pool.reserve_b)
            } else {
                (pool.reserve_b, pool.reserve_a)
            };
            &&& arith::rounded_down(
                out,
                wanted * (amount_in - fee),
                held + (amount_in - fee),
            )
            &&& if pool.total_shares > 0 {
                arith::rounded_down(
                    gain,
                    (fee - cut) * 1_000_000_000_000,
                    pool.total_shares as int,
                )
            } else {
                gain == 0
            }
        }),
    ensures
        ({
            let pool = s.pools[pool_id];
            let (held, wanted, volume, accum) = if a_to_b {
                (pool.reserve_a, pool.reserve_b, pool.cumulative_vol_a, pool.fee_a_accum)
            } else {
                (pool.reserve_b, pool.reserve_a, pool.cumulative_vol_b, pool.fee_b_accum)
            };
            let net = amount_in - fee;
            s.swap_exact_in(env, trader, pool_id, a_to_b, amount_in, min_out, partner_id) is Ok
                <==> {
                &&& s.compliance is Some
                &&& !pool.paused
                &&& arith::fits(amount_in * pool.fee_tier)
                &&& arith::fits(held + net)
                &&& arith::fits(wanted * net)
                &&& arith::fits(fee * s.protocol_fee)
                &&& arith::fits(out * 10_000)
                &&& wanted > 0
                &&& out * 100 <= wanted
                &&& arith::fits(held + amount_in)
                &&& arith::fits(volume + amount_in)
                &&& pool.total_shares > 0 ==> arith::fits((fee - cut) * 1_000_000_000_000)
                    && arith::fits(accum + gain)
                &&& cut > 0 ==> s.earnings is Some
                &&& out >= min_out
            }
        }),
{
    let pool = s.pools[pool_id];
    let amount = amount_in as int;
    let share = s.protocol_fee as int;
    lemma_fee_of(pool, amount, fee);
    lemma_net(pool, amount, fee);
    lemma_cut_of(fee, share, cut);
    let (held, wanted) = if a_to_b {
        (pool.reserve_a as int, pool.reserve_b as int)
    } else {
        (pool.reserve_b as int, pool.reserve_a as int)
    };
    let net = amount - fee;
    assert(wanted * net >= 0) by (nonlinear_arith)
        requires
            wanted >= 0,
            net >= 0,
    ;
    arith::lemma_rounded_down(out, wanted * net, held + net);
    assert(out <= wanted) by (nonlinear_arith)
        requires
            out * (held + net) <= wanted * net,
            held >= 0,
            net > 0,
            wanted >= 0,
    ;
    if pool.total_shares > 0 {
        arith::lemma_rounded_down(
            gain,
            (fee - cut) * 1_000_000_000_000,
            pool.total_shares as int,
        );
    }
}

/// Exactly which claims can be worked out, and that every claim that can be goes
/// through.
pub proof fn law_claims_in_range(
    s: LiquidityState,
    env: Context,
    provider: Address,
    pool_id: Symbol,
    a: int,
    b: int,
)
    requires
        s.sound(),
        s.pools.contains_key(pool_id),
        s.positions.contains_key((pool_id, provider)),
        ({
            let pool = s.pools[pool_id];
            let position = s.positions[(pool_id, provider)];
            &&& earned(
                a,
                position.pending_a as int,
                pool.fee_a_accum as int,
                position.fee_a_debt as int,
                position.shares as int,
            )
            &&& earned(
                b,
                position.pending_b as int,
                pool.fee_b_accum as int,
                position.fee_b_debt as int,
                position.shares as int,
            )
        }),
    ensures
        ({
            let pool = s.pools[pool_id];
            let position = s.positions[(pool_id, provider)];
            let fine = {
                &&& arith::fits((pool.fee_a_accum - position.fee_a_debt) * position.shares)
                &&& arith::fits((pool.fee_b_accum - position.fee_b_debt) * position.shares)
                &&& arith::fits(a)
                &&& arith::fits(b)
            };
            &&& s.claimable_fees(pool_id, provider) is Ok <==> fine
            &&& s.claim_fees(env, provider, pool_id) is Ok <==> s.compliance is Some && fine
        }),
{
    let pool = s.pools[pool_id];
    let position = s.positions[(pool_id, provider)];
    let x = (pool.fee_a_accum - position.fee_a_debt) * position.shares;
    let y = (pool.fee_b_accum - position.fee_b_debt) * position.shares;
    assert(x >= 0 && y >= 0) by (nonlinear_arith)
        requires
            position.shares >= 0,
            pool.fee_a_accum >= position.fee_a_debt,
            pool.fee_b_accum >= position.fee_b_debt,
            x == (pool.fee_a_accum - position.fee_a_debt) * position.shares,
            y == (pool.fee_b_accum - position.fee_b_debt) * position.shares,
    ;
    arith::lemma_rounded_down(a - position.pending_a, x, 1_000_000_000_000);
    arith::lemma_rounded_down(b - position.pending_b, y, 1_000_000_000_000);
    if position.shares == 0 {
        assert(x == 0 && y == 0) by (nonlinear_arith)
            requires
                position.shares == 0,
                x == (pool.fee_a_accum - position.fee_a_debt) * position.shares,
                y == (pool.fee_b_accum - position.fee_b_debt) * position.shares,
        ;
    }
}

/// Exactly which deposits are taken, whatever the size of the numbers.
pub proof fn law_deposits_in_range(
    s: LiquidityState,
    env: Context,
    provider: Address,
    pool_id: Symbol,
    amount_a: i128,
    amount_b: i128,
    min_shares: i128,
    part_a: int,
    part_b: int,
    shares: int,
)
    requires
        s.sound(),
        s.compliance is Some,
        s.pools.contains_key(pool_id),
        !s.pools[pool_id].paused,
        amount_a > 0,
        amount_b > 0,
        ({
            let pool = s.pools[pool_id];
            if pool.total_shares == 0 {
                &&& amount_a * amount_b != 2
                &&& shares >= -1_000
                &&& (shares + 1_000) * (shares + 1_000) <= amount_a * amount_b
                &&& amount_a * amount_b < (shares + 1_001) * (shares + 1_001)
            } else {
                &&& pool.reserve_a > 0
                &&& pool.reserve_b > 0
                &&& arith::rounded_down(
                    part_a,
                    amount_a * pool.total_shares,
                    pool.reserve_a as int,
                )
                &&& arith::rounded_down(
                    part_b,
                    amount_b * pool.total_shares,
                    pool.reserve_b as int,
                )
                &&& shares == if part_a <= part_b {
                    part_a
                } else {
                    part_b
                }
            }
        }),
    ensures
        ({
            let pool = s.pools[pool_id];
            let key = (pool_id, provider);
            let held = if s.positions.contains_key(key) {
                s.positions[key].shares as int
            } else {
                0
            };
            s.add_liquidity(env, provider, pool_id, amount_a, amount_b, min_shares) is Ok <==> {
                &&& s.claimable_fees(pool_id, provider) is Ok
                &&& pool.total_shares == 0 ==> arith::fits(amount_a * amount_b) && shares > 0
                    && arith::fits(shares + 1_000)
                &&& pool.total_shares != 0 ==> arith::fits(amount_a * pool.total_shares)
                    && arith::fits(amount_b * pool.total_shares) && arith::fits(part_a)
                    && arith::fits(part_b) && arith::fits(pool.total_shares + shares)
                &&& shares >= min_shares
                &&& arith::fits(pool.reserve_a + amount_a)
                &&& arith::fits(pool.reserve_b + amount_b)
                &&& arith::fits(held + shares)
            }
        }),
{
    let pool = s.pools[pool_id];
    let key = (pool_id, provider);
    if s.positions.contains_key(key) && s.positions[key].shares == 0 {
        let position = s.positions[key];
        assert((pool.fee_a_accum - position.fee_a_debt) * 0 == 0 && (pool.fee_b_accum
            - position.fee_b_debt) * 0 == 0) by (nonlinear_arith);
    }
    if pool.total_shares == 0 {
        let product = amount_a * amount_b;
        assert(product > 0) by (nonlinear_arith)
            requires
                product == amount_a * amount_b,
                amount_a > 0,
                amount_b > 0,
        ;
        model::lemma_sqrt_unique(product, shares + 1_000);
    } else {
        let total = pool.total_shares as int;
        assert(amount_a * total >= 0 && amount_b * total >= 0) by (nonlinear_arith)
            requires
                amount_a > 0,
                amount_b > 0,
                total >= 0,
        ;
        arith::lemma_rounded_down(part_a, amount_a * total, pool.reserve_a as int);
        arith::lemma_rounded_down(part_b, amount_b * total, pool.reserve_b as int);
    }
}

/// Exactly which withdrawals are paid, whatever the size of the numbers.
pub proof fn law_withdrawals_in_range(
    s: LiquidityState,
    env: Context,
    provider: Address,
    pool_id: Symbol,
    shares: i128,
    min_a: i128,
    min_b: i128,
    out_a: int,
    out_b: int,
)
    requires
        s.sound(),
        s.compliance is Some,
        s.pools.contains_key(pool_id),
        s.positions.contains_key((pool_id, provider)),
        s.pools[pool_id].total_shares != 0,
        arith::rounded_to_zero(
            out_a,
            shares * s.pools[pool_id].reserve_a,
            s.pools[pool_id].total_shares as int,
        ),
        arith::rounded_to_zero(
            out_b,
            shares * s.pools[pool_id].reserve_b,
            s.pools[pool_id].total_shares as int,
        ),
    ensures
        ({
            let pool = s.pools[pool_id];
            let position = s.positions[(pool_id, provider)];
            s.remove_liquidity(env, provider, pool_id, shares, min_a, min_b) is Ok <==> {
                &&& s.claimable_fees(pool_id, provider) is Ok
                &&& shares <= position.shares
                &&& arith::fits(shares * pool.reserve_a)
                &&& arith::fits(shares * pool.reserve_b)
                &&& min_a <= out_a
                &&& min_b <= out_b
                &&& arith::fits(pool.reserve_a - out_a)
                &&& arith::fits(pool.reserve_b - out_b)
                &&& arith::fits(pool.total_shares - shares)
                &&& arith::fits(position.shares - shares)
            }
        }),
        s.remove_liquidity(env, provider, pool_id, shares, min_a, min_b) matches Ok((t, out, _))
            ==> {
            &&& out == (out_a as i128, out_b as i128)
            &&& t.pools[pool_id].total_shares == s.pools[pool_id].total_shares - shares
            &&& t.pools[pool_id].reserve_a == s.pools[pool_id].reserve_a - out_a
            &&& t.pools[pool_id].reserve_b == s.pools[pool_id].reserve_b - out_b
            &&& t.positions[(pool_id, provider)].shares == s.positions[(pool_id, provider)].shares
                - shares
        },
{
    let pool = s.pools[pool_id];
    let position = s.positions[(pool_id, provider)];
    if position.shares == 0 {
        assert((pool.fee_a_accum - position.fee_a_debt) * 0 == 0 && (pool.fee_b_accum
            - position.fee_b_debt) * 0 == 0) by (nonlinear_arith);
    }
    let total = pool.total_shares as int;
    arith::lemma_rounded_to_zero(out_a, shares * pool.reserve_a, total);
    arith::lemma_rounded_to_zero(out_b, shares * pool.reserve_b, total);
    let (x, y) = (shares * pool.reserve_a, shares * pool.reserve_b);
    if x < 0 {
        arith::lemma_quot_range(x, total);
    }
    if y < 0 {
        arith::lemma_quot_range(y, total);
    }
}

} // verus!
