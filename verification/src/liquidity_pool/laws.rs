//! What holds of the pools over several calls.
use crate::arith;
use crate::error::Error;
use crate::liquidity_pool::model;
use crate::liquidity_pool::model::{Call, LiquidityState};
use crate::liquidity_pool::{
    Effect, LpPosition, Pool, FEE_SCALE, MIN_LIQUIDITY, PRECISION,
};
use crate::sums;
use crate::types::{Address, Context, Symbol, WasmHash};
use vstd::prelude::*;

verus! {

/// A pool and a position in it may change together where the position gains
/// or loses the shares that the pool does, and no fee per share is taken back.
proof fn lemma_pool_and_position(
    s: LiquidityState,
    pool_id: Symbol,
    provider: Address,
    pool: Pool,
    position: LpPosition,
)
    requires
        s.sound(),
        s.pools.contains_key(pool_id),
        pool.sound(),
        position.sound(pool),
        pool.fee_a_accum >= s.pools[pool_id].fee_a_accum,
        pool.fee_b_accum >= s.pools[pool_id].fee_b_accum,
        pool.owned_shares() - s.pools[pool_id].owned_shares() == position.shares - (
        if s.positions.contains_key((pool_id, provider)) {
            s.positions[(pool_id, provider)].shares as int
        } else {
            0
        }),
    ensures
        (LiquidityState {
            pools: s.pools.insert(pool_id, pool),
            positions: s.positions.insert((pool_id, provider), position),
            ..s
        }).sound(),
{
    let key = (pool_id, provider);
    let t = LiquidityState {
        pools: s.pools.insert(pool_id, pool),
        positions: s.positions.insert(key, position),
        ..s
    };
    assert forall|id: Symbol| #[trigger] t.pools.contains_key(id) implies t.pools[id].sound()
        && t.shares_add_up(id) by {
        assert(s.pools.contains_key(id));
        sums::lemma_total_insert(s.positions, model::shares_in(id), key, position);
    }
    assert forall|k: (Symbol, Address)| #[trigger]
        t.positions.contains_key(k) implies t.pools.contains_key(k.0) && t.positions[k].sound(
        t.pools[k.0],
    ) by {
        if k != key {
            assert(s.positions.contains_key(k));
        }
    }
}

/// A pool may change alone where it keeps its shares and takes no fee per
/// share back.
proof fn lemma_pool(s: LiquidityState, pool_id: Symbol, pool: Pool)
    requires
        s.sound(),
        s.pools.contains_key(pool_id),
        pool.sound(),
        pool.fee_a_accum >= s.pools[pool_id].fee_a_accum,
        pool.fee_b_accum >= s.pools[pool_id].fee_b_accum,
        pool.owned_shares() == s.pools[pool_id].owned_shares(),
    ensures
        (LiquidityState { pools: s.pools.insert(pool_id, pool), ..s }).sound(),
{
    let t = LiquidityState { pools: s.pools.insert(pool_id, pool), ..s };
    assert forall|id: Symbol| #[trigger] t.pools.contains_key(id) implies t.pools[id].sound()
        && t.shares_add_up(id) by {
        assert(s.pools.contains_key(id));
    }
    assert forall|k: (Symbol, Address)| #[trigger]
        t.positions.contains_key(k) implies t.pools.contains_key(k.0) && t.positions[k].sound(
        t.pools[k.0],
    ) by {
        assert(s.positions.contains_key(k));
    }
}

/// What shares earn is not negative.
proof fn lemma_accrued(accum: int, debt: int, shares: int)
    requires
        accum >= debt,
        shares >= 0,
    ensures
        model::accrued(accum, debt, shares) >= 0,
{
    assert((accum - debt) * shares >= 0) by (nonlinear_arith)
        requires
            accum >= debt,
            shares >= 0,
    ;
}

/// Settling keeps a position sound.
proof fn lemma_settled(pool: Pool, position: LpPosition)
    requires
        pool.sound(),
        position.sound(pool),
        position.settling_defined(pool),
    ensures
        position.settled(pool).sound(pool),
        position.settled(pool).shares == position.shares,
{
    lemma_accrued(pool.fee_a_accum as int, position.fee_a_debt as int, position.shares as int);
    lemma_accrued(pool.fee_b_accum as int, position.fee_b_debt as int, position.shares as int);
}

/// The fee on a sale is a part of it, and the protocol's part is at most a
/// quarter of the fee.
proof fn lemma_fee(pool: Pool, amount_in: int, protocol_fee: int)
    requires
        pool.sound(),
        amount_in >= 0,
        0 <= protocol_fee <= 2_500,
    ensures
        0 <= pool.fee(amount_in) <= amount_in,
        0 <= pool.protocol_part(amount_in, protocol_fee),
        4 * pool.protocol_part(amount_in, protocol_fee) <= pool.fee(amount_in),
{
    let fee = pool.fee(amount_in);
    assert(0 <= amount_in * pool.fee_tier <= amount_in * PRECISION) by (nonlinear_arith)
        requires
            amount_in >= 0,
            0 <= pool.fee_tier <= PRECISION,
    ;
    assert(0 <= fee * protocol_fee <= fee * 2_500) by (nonlinear_arith)
        requires
            fee >= 0,
            0 <= protocol_fee <= 2_500,
    ;
}

/// A swap hands out no more than there is, and keeps the product of the
/// reserves.
proof fn lemma_output(pool: Pool, amount_in: int, a_to_b: bool)
    requires
        pool.sound(),
        amount_in >= 0,
        pool.output_defined(amount_in, a_to_b),
    ensures
        0 <= pool.output(amount_in, a_to_b) <= pool.reserve_out(a_to_b),
        (pool.reserve_in(a_to_b) + amount_in) * (pool.reserve_out(a_to_b) - pool.output(
            amount_in,
            a_to_b,
        )) >= pool.reserve_in(a_to_b) * pool.reserve_out(a_to_b),
{
    lemma_fee(pool, amount_in, 0);
    let x = pool.reserve_in(a_to_b);
    let y = pool.reserve_out(a_to_b);
    let n = pool.net(amount_in);
    let out = pool.output(amount_in, a_to_b);
    assert(0 <= y * n) by (nonlinear_arith)
        requires
            y >= 0,
            n >= 0,
    ;
    arith::lemma_quot_range(y * n, x + n);
    assert(out <= y && (x + amount_in) * (y - out) >= x * y) by (nonlinear_arith)
        requires
            x >= 0,
            y >= 0,
            0 <= n <= amount_in,
            x + n > 0,
            out >= 0,
            out * (x + n) <= y * n,
    ;
}

/// The contract starts sound.
pub proof fn law_starts_sound()
    ensures
        LiquidityState::blank().sound(),
{
}

/// Whatever call comes, and whether it is refused or not, the contract stays
/// sound: reserves and fees are not negative, the positions in each pool hold
/// the shares that providers own, and the shares that nobody owns stay in the
/// pool for good.
pub proof fn law_stays_sound(s: LiquidityState, env: Context, call: Call)
    requires
        s.sound(),
    ensures
        s.after(env, call).sound(),
{
    let t = s.after(env, call);
    match call {
        Call::CreatePool { creator, pool_id, token_a, token_b, fee_tier } => {
            if t != s {
                assert forall|id: Symbol| #[trigger]
                    t.pools.contains_key(id) implies t.pools[id].sound() && t.shares_add_up(
                    id,
                ) by {
                    if id == pool_id {
                        sums::lemma_total_zero(s.positions, model::shares_in(id));
                    } else {
                        assert(s.pools.contains_key(id));
                    }
                }
                assert forall|k: (Symbol, Address)| #[trigger]
                    t.positions.contains_key(k) implies t.pools.contains_key(k.0)
                    && t.positions[k].sound(t.pools[k.0]) by {
                    assert(s.positions.contains_key(k));
                }
            }
        },
        Call::AddLiquidity { provider, pool_id, amount_a, amount_b, min_shares } => {
            if s.add_liquidity(env, provider, pool_id, amount_a, amount_b, min_shares) is Ok {
                let key = (pool_id, provider);
                let pool = s.pools[pool_id];
                if s.positions.contains_key(key) {
                    lemma_settled(pool, s.positions[key]);
                }
                let shares = pool.shares_for(amount_a as int, amount_b as int);
                if pool.total_shares != 0 {
                    lemma_part(pool, amount_a as int, pool.reserve_a as int);
                    lemma_part(pool, amount_b as int, pool.reserve_b as int);
                }
                lemma_pool_and_position(s, pool_id, provider, t.pools[pool_id], t.positions[key]);
            }
        },
        Call::RemoveLiquidity { provider, pool_id, shares, min_a, min_b } => {
            if s.remove_liquidity(env, provider, pool_id, shares, min_a, min_b) is Ok {
                let key = (pool_id, provider);
                let pool = s.pools[pool_id];
                let position = s.positions[key];
                lemma_settled(pool, position);
                lemma_owned(s, pool_id, provider);
                lemma_worth(pool, shares as int, pool.reserve_a as int);
                lemma_worth(pool, shares as int, pool.reserve_b as int);
                lemma_pool_and_position(s, pool_id, provider, t.pools[pool_id], t.positions[key]);
            }
        },
        Call::SwapExactIn { trader, pool_id, a_to_b, amount_in, min_out, partner_id } => {
            if s.swap_exact_in(env, trader, pool_id, a_to_b, amount_in, min_out, partner_id) is Ok {
                let pool = s.pools[pool_id];
                lemma_output(pool, amount_in as int, a_to_b);
                lemma_fee(pool, amount_in as int, s.protocol_fee as int);
                lemma_fee_per_share(pool, amount_in as int, s.protocol_fee as int);
                lemma_pool(s, pool_id, t.pools[pool_id]);
            }
        },
        Call::ClaimFees { provider, pool_id } => {
            let key = (pool_id, provider);
            if s.claim_fees(env, provider, pool_id) is Ok && s.positions.contains_key(key) {
                let pool = s.pools[pool_id];
                lemma_settled(pool, s.positions[key]);
                lemma_pool_and_position(s, pool_id, provider, pool, t.positions[key]);
                assert(t.pools =~= s.pools.insert(pool_id, pool));
            }
        },
        Call::SetPaused { admin, pool_id, paused } => {
            if s.set_paused(admin, pool_id, paused) is Ok {
                lemma_pool(s, pool_id, t.pools[pool_id]);
            }
        },
        _ => {
            assert forall|id: Symbol| #[trigger]
                t.pools.contains_key(id) implies t.pools[id].sound() && t.shares_add_up(id) by {
                assert(s.pools.contains_key(id));
            }
            assert forall|k: (Symbol, Address)| #[trigger]
                t.positions.contains_key(k) implies t.pools.contains_key(k.0)
                && t.positions[k].sound(t.pools[k.0]) by {
                assert(s.positions.contains_key(k));
            }
        },
    }
}

/// A deposit earns a number of shares that is not negative.
proof fn lemma_part(pool: Pool, amount: int, reserve: int)
    requires
        pool.sound(),
        pool.total_shares > 0,
        amount > 0,
        reserve > 0,
    ensures
        0 <= arith::quot(amount * pool.total_shares, reserve),
        arith::quot(amount * pool.total_shares, reserve) * reserve <= amount * pool.total_shares,
{
    assert(amount * pool.total_shares >= 0) by (nonlinear_arith)
        requires
            amount > 0,
            pool.total_shares > 0,
    ;
    arith::lemma_quot_range(amount * pool.total_shares, reserve);
}

/// A provider owns no more shares of a pool than providers do.
proof fn lemma_owned(s: LiquidityState, pool_id: Symbol, provider: Address)
    requires
        s.sound(),
        s.pools.contains_key(pool_id),
        s.positions.contains_key((pool_id, provider)),
    ensures
        s.positions[(pool_id, provider)].shares <= s.pools[pool_id].owned_shares(),
{
    let weight = model::shares_in(pool_id);
    assert(s.shares_add_up(pool_id));
    assert forall|k: (Symbol, Address)| #[trigger] s.positions.contains_key(k) implies weight(
        k,
        s.positions[k],
    ) >= 0 by {
        assert(s.positions[k].sound(s.pools[k.0]));
    }
    sums::lemma_total_bounds(s.positions, weight);
    assert(weight((pool_id, provider), s.positions[(pool_id, provider)])
        == s.positions[(pool_id, provider)].shares);
}

/// Shares are worth no more than the reserve.
proof fn lemma_worth(pool: Pool, shares: int, reserve: int)
    requires
        pool.sound(),
        pool.total_shares > 0,
        shares <= pool.total_shares,
        reserve >= 0,
    ensures
        pool.worth(shares, reserve) <= reserve,
{
    let total = pool.total_shares as int;
    assert(shares * reserve <= total * reserve) by (nonlinear_arith)
        requires
            shares <= total,
            reserve >= 0,
    ;
    arith::lemma_quot_range(shares * reserve, total);
    let w = pool.worth(shares, reserve);
    if shares * reserve >= 0 {
        assert(w <= reserve) by (nonlinear_arith)
            requires
                w * total <= shares * reserve,
                shares * reserve <= total * reserve,
                total > 0,
        ;
    }
}

/// A swap adds to the fees per share.
proof fn lemma_fee_per_share(pool: Pool, amount_in: int, protocol_fee: int)
    requires
        pool.sound(),
        amount_in >= 0,
        0 <= protocol_fee <= 2_500,
    ensures
        pool.fee_per_share(amount_in, protocol_fee) >= 0,
{
    lemma_fee(pool, amount_in, protocol_fee);
    if pool.total_shares > 0 {
        arith::lemma_quot_range(
            pool.provider_part(amount_in, protocol_fee) * FEE_SCALE,
            pool.total_shares as int,
        );
    }
}

/// A swap never lowers the product of the reserves.
pub proof fn law_swap_keeps_product(
    s: LiquidityState,
    env: Context,
    trader: Address,
    pool_id: Symbol,
    a_to_b: bool,
    amount_in: i128,
    min_out: i128,
    partner_id: u32,
)
    requires
        s.sound(),
    ensures
        s.swap_exact_in(env, trader, pool_id, a_to_b, amount_in, min_out, partner_id) matches Ok(
            (t, out, effects),
        ) ==> t.pools[pool_id].reserve_a * t.pools[pool_id].reserve_b >= s.pools[pool_id].reserve_a
            * s.pools[pool_id].reserve_b,
{
    let step = s.swap_exact_in(env, trader, pool_id, a_to_b, amount_in, min_out, partner_id);
    if step is Ok {
        let pool = s.pools[pool_id];
        let next = step->Ok_0.0.pools[pool_id];
        lemma_output(pool, amount_in as int, a_to_b);
        lemma_fee(pool, amount_in as int, s.protocol_fee as int);
        if !a_to_b {
            assert(next.reserve_a * next.reserve_b == next.reserve_b * next.reserve_a
                && pool.reserve_a * pool.reserve_b == pool.reserve_b * pool.reserve_a)
                by (nonlinear_arith);
        }
    }
}

/// A swap takes at most a hundredth of the reserve, and no less than the trader
/// asked for.
pub proof fn law_swap_limits(
    s: LiquidityState,
    env: Context,
    trader: Address,
    pool_id: Symbol,
    a_to_b: bool,
    amount_in: i128,
    min_out: i128,
    partner_id: u32,
)
    ensures
        s.swap_exact_in(env, trader, pool_id, a_to_b, amount_in, min_out, partner_id) matches Ok(
            (t, out, effects),
        ) ==> out >= min_out && out * 100 <= s.pools[pool_id].reserve_out(a_to_b),
{
}

/// A swap pays what the quote before it said.
pub proof fn law_quote_is_paid(
    s: LiquidityState,
    env: Context,
    trader: Address,
    pool_id: Symbol,
    a_to_b: bool,
    amount_in: i128,
    min_out: i128,
    partner_id: u32,
)
    ensures
        s.swap_exact_in(env, trader, pool_id, a_to_b, amount_in, min_out, partner_id) matches Ok(
            (t, out, effects),
        ) ==> s.quote(pool_id, amount_in, a_to_b) == Ok::<i128, Error>(out),
{
}

/// The fee of a swap is split without loss, and the protocol gets at most a
/// quarter of it.
pub proof fn law_fee_split(s: LiquidityState, pool_id: Symbol, amount_in: i128)
    requires
        s.sound(),
        s.pools.contains_key(pool_id),
        amount_in >= 0,
    ensures
        ({
            let pool = s.pools[pool_id];
            let protocol = pool.protocol_part(amount_in as int, s.protocol_fee as int);
            let provider = pool.provider_part(amount_in as int, s.protocol_fee as int);
            &&& protocol + provider == pool.fee(amount_in as int)
            &&& protocol >= 0
            &&& provider >= 0
            &&& 4 * protocol <= pool.fee(amount_in as int)
        }),
{
    lemma_fee(s.pools[pool_id], amount_in as int, s.protocol_fee as int);
}

/// Claiming pays what was claimable, and leaves nothing to claim. Nothing
/// that is paid is negative.
pub proof fn law_claim_pays_claimable(
    s: LiquidityState,
    env: Context,
    provider: Address,
    pool_id: Symbol,
)
    requires
        s.sound(),
    ensures
        s.claim_fees(env, provider, pool_id) matches Ok((t, paid, effects)) ==> {
            &&& s.claimable_fees(pool_id, provider) == Ok::<(i128, i128), Error>(paid)
            &&& t.claimable_fees(pool_id, provider) == Ok::<(i128, i128), Error>((0, 0))
            &&& paid.0 >= 0
            &&& paid.1 >= 0
        },
{
    let step = s.claim_fees(env, provider, pool_id);
    if step is Ok && s.positions.contains_key((pool_id, provider)) {
        let pool = s.pools[pool_id];
        let position = s.positions[(pool_id, provider)];
        let left = step->Ok_0.0.positions[(pool_id, provider)];
        lemma_settled(pool, position);
        assert((pool.fee_a_accum - position.fee_a_debt) * 0 == 0
            && (pool.fee_b_accum - position.fee_b_debt) * 0 == 0) by (nonlinear_arith);
        assert((pool.fee_a_accum - left.fee_a_debt) * left.shares == 0
            && (pool.fee_b_accum - left.fee_b_debt) * left.shares == 0) by (nonlinear_arith)
            requires
                left.shares == 0 || (pool.fee_a_accum == left.fee_a_debt && pool.fee_b_accum
                    == left.fee_b_debt),
        ;
    }
}

/// Whoever adds liquidity and takes the new shares out at once gets back no
/// more than went in.
pub proof fn law_no_gain_from_deposit(
    s: LiquidityState,
    env: Context,
    provider: Address,
    pool_id: Symbol,
    amount_a: i128,
    amount_b: i128,
    min_shares: i128,
    min_a: i128,
    min_b: i128,
)
    requires
        s.sound(),
    ensures
        s.add_liquidity(env, provider, pool_id, amount_a, amount_b, min_shares) matches Ok(
            (t, shares, effects),
        ) ==> (t.remove_liquidity(env, provider, pool_id, shares, min_a, min_b) matches Ok(
            (u, out, more),
        ) ==> out.0 <= amount_a && out.1 <= amount_b),
{
    let step = s.add_liquidity(env, provider, pool_id, amount_a, amount_b, min_shares);
    if step is Ok {
        let (t, shares, _) = step->Ok_0;
        if t.remove_liquidity(env, provider, pool_id, shares, min_a, min_b) is Ok {
            let pool = s.pools[pool_id];
            let grown = t.pools[pool_id];
            if pool.total_shares != 0 {
                lemma_part(pool, amount_a as int, pool.reserve_a as int);
                lemma_part(pool, amount_b as int, pool.reserve_b as int);
            }
            lemma_round_trip(
                pool.shares_before_deposit(),
                shares as int,
                pool.reserve_a as int,
                amount_a as int,
            );
            lemma_round_trip(
                pool.shares_before_deposit(),
                shares as int,
                pool.reserve_b as int,
                amount_b as int,
            );
        }
    }
}

/// New shares are worth no more than was paid for them.
proof fn lemma_round_trip(total: int, shares: int, reserve: int, amount: int)
    requires
        total > 0,
        shares >= 0,
        reserve >= 0,
        amount > 0,
        reserve == 0 || shares <= arith::quot(amount * total, reserve),
    ensures
        arith::quot(shares * (reserve + amount), total + shares) <= amount,
{
    if reserve > 0 {
        assert(amount * total > 0) by (nonlinear_arith)
            requires
                amount > 0,
                total > 0,
        ;
        arith::lemma_quot_range(amount * total, reserve);
        let q = arith::quot(amount * total, reserve);
        assert(shares * reserve <= amount * total) by (nonlinear_arith)
            requires
                shares <= q,
                q * reserve <= amount * total,
                reserve > 0,
        ;
    } else {
        assert(shares * reserve <= amount * total) by (nonlinear_arith)
            requires
                reserve == 0,
                amount > 0,
                total > 0,
        ;
    }
    assert(0 <= shares * (reserve + amount) <= amount * (total + shares)) by (nonlinear_arith)
        requires
            shares * reserve <= amount * total,
            shares >= 0,
            reserve + amount >= 0,
    ;
    arith::lemma_quot_range(shares * (reserve + amount), total + shares);
    let w = arith::quot(shares * (reserve + amount), total + shares);
    assert(w <= amount) by (nonlinear_arith)
        requires
            w * (total + shares) <= amount * (total + shares),
            total + shares > 0,
    ;
}

/// Nobody adds or removes liquidity, swaps or claims fees without having
/// authorised the call and passed the compliance registry, before anything
/// else happens.
pub proof fn law_users_are_checked(s: LiquidityState, env: Context, user: Address, pool_id: Symbol)
    ensures
        forall|a: i128, b: i128, m: i128|
            #![trigger s.add_liquidity(env, user, pool_id, a, b, m)]
            s.add_liquidity(env, user, pool_id, a, b, m) matches Ok((_, _, effects))
                ==> s.gate(env, user).is_prefix_of(effects),
        forall|n: i128, a: i128, b: i128|
            #![trigger s.remove_liquidity(env, user, pool_id, n, a, b)]
            s.remove_liquidity(env, user, pool_id, n, a, b) matches Ok((_, _, effects))
                ==> s.gate(env, user).is_prefix_of(effects),
        forall|a_to_b: bool, a: i128, m: i128, partner: u32|
            #![trigger s.swap_exact_in(env, user, pool_id, a_to_b, a, m, partner)]
            s.swap_exact_in(env, user, pool_id, a_to_b, a, m, partner) matches Ok((_, _, effects))
                ==> s.gate(env, user).is_prefix_of(effects),
        s.claim_fees(env, user, pool_id) matches Ok((_, _, effects)) ==> s.gate(
            env,
            user,
        ).is_prefix_of(effects),
        s.compliance is None ==> s.claim_fees(env, user, pool_id) is Err,
{
}

/// A paused pool takes no deposit and no swap; withdrawals and claims go on
/// as if it were not paused.
pub proof fn law_pause(
    s: LiquidityState,
    env: Context,
    user: Address,
    pool_id: Symbol,
    shares: i128,
    min_a: i128,
    min_b: i128,
)
    requires
        s.pools.contains_key(pool_id),
        s.pools[pool_id].paused,
        s.compliance is Some,
    ensures
        forall|a: i128, b: i128, m: i128|
            #![trigger s.add_liquidity(env, user, pool_id, a, b, m)]
            s.add_liquidity(env, user, pool_id, a, b, m) is Err,
        forall|a_to_b: bool, a: i128, m: i128, partner: u32|
            #![trigger s.swap_exact_in(env, user, pool_id, a_to_b, a, m, partner)]
            s.swap_exact_in(env, user, pool_id, a_to_b, a, m, partner) is Err,
        ({
            let open = LiquidityState {
                pools: s.pools.insert(pool_id, Pool { paused: false, ..s.pools[pool_id] }),
                ..s
            };
            let here = s.remove_liquidity(env, user, pool_id, shares, min_a, min_b);
            let there = open.remove_liquidity(env, user, pool_id, shares, min_a, min_b);
            &&& here is Ok <==> there is Ok
            &&& here is Ok ==> here->Ok_0.1 == there->Ok_0.1 && here->Ok_0.2 == there->Ok_0.2
            &&& s.claim_fees(env, user, pool_id) is Ok <==> open.claim_fees(
                env,
                user,
                pool_id,
            ) is Ok
        }),
{
}

/// A call on one pool leaves the other pools, and the positions of other
/// providers, as they are.
pub proof fn law_others_untouched(
    s: LiquidityState,
    env: Context,
    call: Call,
    pool_id: Symbol,
    provider: Address,
)
    requires
        match call {
            Call::CreatePool { pool_id: id, .. } => id != pool_id,
            Call::AddLiquidity { pool_id: id, provider: p, .. } => id != pool_id || p != provider,
            Call::RemoveLiquidity { pool_id: id, provider: p, .. } => id != pool_id || p
                != provider,
            Call::ClaimFees { pool_id: id, provider: p } => id != pool_id || p != provider,
            _ => true,
        },
    ensures
        s.after(env, call).get_lp_position(pool_id, provider) == s.get_lp_position(
            pool_id,
            provider,
        ),
        match call {
            Call::CreatePool { pool_id: id, .. } => id != pool_id,
            Call::AddLiquidity { pool_id: id, .. } => id != pool_id,
            Call::RemoveLiquidity { pool_id: id, .. } => id != pool_id,
            Call::SwapExactIn { pool_id: id, .. } => id != pool_id,
            Call::SetPaused { pool_id: id, .. } => id != pool_id,
            _ => true,
        } ==> s.after(env, call).get_pool(pool_id) == s.get_pool(pool_id),
{
}

/// The rules change only on the word of the DAO or the admin that is stored.
pub proof fn law_rules_need_authority(s: LiquidityState, env: Context, call: Call)
    requires
        s.admin is Some,
        s.dao is Some,
    ensures
        ({
            let t = s.after(env, call);
            &&& t.admin == s.admin && t.dao == s.dao && t.earnings == s.earnings
            &&& t.protocol_fee != s.protocol_fee ==> (call matches Call::SetProtocolFee {
                dao,
                fee_bps,
            } && Some(dao) == s.dao && s.set_protocol_fee(dao, fee_bps)->Ok_0.1
                == seq![Effect::RequireAuth(dao)])
            &&& t.compliance != s.compliance ==> (call matches Call::SetCompliance {
                dao,
                compliance,
            } && Some(dao) == s.dao && s.set_compliance(dao, compliance)->Ok_0.1
                == seq![Effect::RequireAuth(dao)])
            &&& t.pool_count != s.pool_count ==> (call matches Call::CreatePool {
                creator,
                pool_id,
                token_a,
                token_b,
                fee_tier,
            } && (Some(creator) == s.admin || Some(creator) == s.dao) && s.create_pool(
                creator,
                pool_id,
                token_a,
                token_b,
                fee_tier,
            )->Ok_0.2 == seq![Effect::RequireAuth(creator)])
        }),
{
    match call {
        Call::Initialize { .. } => {},
        Call::SetCompliance { .. } => {},
        Call::CreatePool { .. } => {},
        Call::AddLiquidity { .. } => {},
        Call::RemoveLiquidity { .. } => {},
        Call::SwapExactIn { .. } => {},
        Call::ClaimFees { .. } => {},
        Call::SetPaused { .. } => {},
        Call::SetProtocolFee { .. } => {},
        Call::Upgrade { .. } => {},
    }
}

/// An upgrade is authorised by the DAO that is stored, and keeps what is
/// stored.
pub proof fn law_upgrade(s: LiquidityState, new_wasm_hash: WasmHash)
    ensures
        s.upgrade(new_wasm_hash) matches Ok((t, effects)) ==> t == s && effects[0]
            == Effect::RequireAuth(s.dao->0) && s.dao is Some,
{
}

} // verus!
