//! What each call on the pools does to them.
use crate::arith;
use crate::error;
use crate::error::Error;
use crate::liquidity_pool::{
    AddLiquidityEvent, ClaimFeesEvent, Effect, LpPosition, Pool, RemoveLiquidityEvent, SwapEvent,
    FEE_SCALE, FEE_TIER_HIGH, FEE_TIER_LOW, FEE_TIER_MED, INITIAL_PROTOCOL_FEE, MAX_PRICE_IMPACT,
    MAX_PROTOCOL_FEE, MIN_LIQUIDITY, PRECISION, SWAPFEE, WAD,
};
use crate::sums;
use crate::types::{Address, Context, WasmHash, Symbol};
use vstd::prelude::*;

verus! {

/// The state of the contract.
#[verifier::ext_equal]
pub struct LiquidityState {
    pub admin: Option<Address>,
    pub dao: Option<Address>,
    pub earnings: Option<Address>,
    pub compliance: Option<Address>,
    pub protocol_fee: i128,
    pub pool_count: u32,
    pub pools: Map<Symbol, Pool>,
    pub positions: Map<(Symbol, Address), LpPosition>,
    pub pool_list: Map<u32, Symbol>,
}

/// `r` is the square root of `x`, rounded down.
pub open spec fn is_root(x: int, r: int) -> bool {
    r >= 0 && r * r <= x < (r + 1) * (r + 1)
}

/// The root that sizes a first deposit.
pub open spec fn sqrt(x: int) -> int {
    if x == 2 || x < 0 {
        x
    } else {
        choose|r: int| is_root(x, r)
    }
}

/// A number has one square root, rounded down.
pub proof fn lemma_sqrt_unique(x: int, r: int)
    requires
        is_root(x, r),
        x != 2,
    ensures
        sqrt(x) == r,
{
    assert(x >= 0) by (nonlinear_arith)
        requires
            r >= 0,
            r * r <= x,
    ;
    let s = choose|s: int| is_root(x, s);
    assert(is_root(x, s));
    assert(s == r) by (nonlinear_arith)
        requires
            s >= 0,
            r >= 0,
            s * s <= x,
            x < (s + 1) * (s + 1),
            r * r <= x,
            x < (r + 1) * (r + 1),
    ;
}

// ── Fees on shares ────────────────────────────────────────────────

/// What `shares` earned while the fees per share went from `debt` to `accum`.
pub open spec fn accrued(accum: int, debt: int, shares: int) -> int {
    arith::quot((accum - debt) * shares, FEE_SCALE as int)
}

/// What `shares` earned can be computed and added to `pending`.
pub open spec fn accrual_defined(pending: int, accum: int, debt: int, shares: int) -> bool {
    &&& arith::fits(accum - debt)
    &&& arith::fits((accum - debt) * shares)
    &&& arith::fits(pending + accrued(accum, debt, shares))
}

impl LpPosition {
    /// The fees that the position could claim now.
    pub open spec fn claimable(self, pool: Pool) -> (int, int) {
        (
            self.pending_a + accrued(
                pool.fee_a_accum as int,
                self.fee_a_debt as int,
                self.shares as int,
            ),
            self.pending_b + accrued(
                pool.fee_b_accum as int,
                self.fee_b_debt as int,
                self.shares as int,
            ),
        )
    }

    /// The fees that the position could claim can be computed.
    pub open spec fn claimable_defined(self, pool: Pool) -> bool {
        &&& accrual_defined(
            self.pending_a as int,
            pool.fee_a_accum as int,
            self.fee_a_debt as int,
            self.shares as int,
        )
        &&& accrual_defined(
            self.pending_b as int,
            pool.fee_b_accum as int,
            self.fee_b_debt as int,
            self.shares as int,
        )
    }

    /// The position with what it earned made pending. One without shares
    /// stays as it is.
    pub open spec fn settled(self, pool: Pool) -> LpPosition {
        if self.shares == 0 {
            self
        } else {
            LpPosition {
                pending_a: self.claimable(pool).0 as i128,
                pending_b: self.claimable(pool).1 as i128,
                fee_a_debt: pool.fee_a_accum,
                fee_b_debt: pool.fee_b_accum,
                ..self
            }
        }
    }

    /// The position can be settled.
    pub open spec fn settling_defined(self, pool: Pool) -> bool {
        self.shares != 0 ==> self.claimable_defined(pool)
    }

    /// The position with nothing pending.
    pub open spec fn paid_out(self) -> LpPosition {
        LpPosition { pending_a: 0, pending_b: 0, ..self }
    }
}

// ── One pool ──────────────────────────────────────────────────────

impl Pool {
    /// A pool without tokens.
    pub open spec fn empty(token_a: Address, token_b: Address, fee_tier: i128) -> Pool {
        Pool {
            token_a,
            token_b,
            reserve_a: 0,
            reserve_b: 0,
            total_shares: 0,
            fee_tier,
            fee_a_accum: 0,
            fee_b_accum: 0,
            cumulative_vol_a: 0,
            cumulative_vol_b: 0,
            paused: false,
        }
    }

    /// The shares that a deposit earns: the geometric mean of a first deposit
    /// less what nobody owns, and after that the smaller of the parts that
    /// the two amounts add to their reserves.
    pub open spec fn shares_for(self, amount_a: int, amount_b: int) -> int {
        if self.total_shares == 0 {
            sqrt(amount_a * amount_b) - MIN_LIQUIDITY
        } else {
            arith::min(
                arith::quot(amount_a * self.total_shares, self.reserve_a as int),
                arith::quot(amount_b * self.total_shares, self.reserve_b as int),
            )
        }
    }

    /// The shares that a deposit earns can be computed.
    pub open spec fn shares_defined(self, amount_a: int, amount_b: int) -> bool {
        if self.total_shares == 0 {
            arith::fits(amount_a * amount_b)
        } else {
            &&& arith::ratio_defined(amount_a, self.total_shares as int, self.reserve_a as int)
            &&& arith::ratio_defined(amount_b, self.total_shares as int, self.reserve_b as int)
        }
    }

    /// The shares there are before a deposit is counted: a first deposit
    /// creates the ones that nobody owns.
    pub open spec fn shares_before_deposit(self) -> int {
        if self.total_shares == 0 {
            MIN_LIQUIDITY as int
        } else {
            self.total_shares as int
        }
    }

    /// The pool after a deposit.
    pub open spec fn deposited(self, amount_a: int, amount_b: int, shares: int) -> Pool {
        Pool {
            reserve_a: (self.reserve_a + amount_a) as i128,
            reserve_b: (self.reserve_b + amount_b) as i128,
            total_shares: (self.shares_before_deposit() + shares) as i128,
            ..self
        }
    }

    pub open spec fn deposited_defined(self, amount_a: int, amount_b: int, shares: int) -> bool {
        &&& arith::fits(self.reserve_a + amount_a)
        &&& arith::fits(self.reserve_b + amount_b)
        &&& arith::fits(self.shares_before_deposit() + shares)
    }

    /// What `shares` are worth of a reserve.
    pub open spec fn worth(self, shares: int, reserve: int) -> int {
        arith::quot(shares * reserve, self.total_shares as int)
    }

    pub open spec fn worth_defined(self, shares: int) -> bool {
        &&& arith::ratio_defined(shares, self.reserve_a as int, self.total_shares as int)
        &&& arith::ratio_defined(shares, self.reserve_b as int, self.total_shares as int)
    }

    /// The pool after a withdrawal.
    pub open spec fn withdrawn(self, out_a: int, out_b: int, shares: int) -> Pool {
        Pool {
            reserve_a: (self.reserve_a - out_a) as i128,
            reserve_b: (self.reserve_b - out_b) as i128,
            total_shares: (self.total_shares - shares) as i128,
            ..self
        }
    }

    pub open spec fn withdrawn_defined(self, out_a: int, out_b: int, shares: int) -> bool {
        &&& arith::fits(self.reserve_a - out_a)
        &&& arith::fits(self.reserve_b - out_b)
        &&& arith::fits(self.total_shares - shares)
    }

    /// The reserve of the token that is sold.
    pub open spec fn reserve_in(self, a_to_b: bool) -> int {
        if a_to_b {
            self.reserve_a as int
        } else {
            self.reserve_b as int
        }
    }

    /// The reserve of the token that is bought.
    pub open spec fn reserve_out(self, a_to_b: bool) -> int {
        self.reserve_in(!a_to_b)
    }

    pub open spec fn token_in(self, a_to_b: bool) -> Address {
        if a_to_b {
            self.token_a
        } else {
            self.token_b
        }
    }

    /// The fee on an amount that is sold.
    pub open spec fn fee(self, amount_in: int) -> int {
        arith::quot(amount_in * self.fee_tier, PRECISION as int)
    }

    /// The amount that is exchanged, net of the fee.
    pub open spec fn net(self, amount_in: int) -> int {
        amount_in - self.fee(amount_in)
    }

    /// What an amount buys: the part of the reserve that keeps the product of
    /// the reserves, were there no fee.
    pub open spec fn output(self, amount_in: int, a_to_b: bool) -> int {
        arith::quot(
            self.reserve_out(a_to_b) * self.net(amount_in),
            self.reserve_in(a_to_b) + self.net(amount_in),
        )
    }

    pub open spec fn output_defined(self, amount_in: int, a_to_b: bool) -> bool {
        &&& arith::fits(amount_in * self.fee_tier)
        &&& arith::fits(self.net(amount_in))
        &&& arith::fits(self.reserve_in(a_to_b) + self.net(amount_in))
        &&& arith::ratio_defined(
            self.reserve_out(a_to_b),
            self.net(amount_in),
            self.reserve_in(a_to_b) + self.net(amount_in),
        )
    }

    /// The protocol's part of the fee.
    pub open spec fn protocol_part(self, amount_in: int, protocol_fee: int) -> int {
        arith::quot(self.fee(amount_in) * protocol_fee, PRECISION as int)
    }

    /// The providers' part of the fee.
    pub open spec fn provider_part(self, amount_in: int, protocol_fee: int) -> int {
        self.fee(amount_in) - self.protocol_part(amount_in, protocol_fee)
    }

    pub open spec fn parts_defined(self, amount_in: int, protocol_fee: int) -> bool {
        &&& arith::fits(self.fee(amount_in) * protocol_fee)
        &&& arith::fits(self.provider_part(amount_in, protocol_fee))
    }

    /// A swap takes more of its reserve than the price impact allows.
    pub open spec fn takes_too_much(self, amount_in: int, a_to_b: bool) -> bool {
        self.output(amount_in, a_to_b) * PRECISION > MAX_PRICE_IMPACT * self.reserve_out(a_to_b)
    }

    /// The part of its reserve that a swap takes can be computed.
    pub open spec fn impact_defined(self, amount_in: int, a_to_b: bool) -> bool {
        arith::fits(self.output(amount_in, a_to_b) * PRECISION) && self.reserve_out(a_to_b) != 0
    }

    /// What a swap adds to the fees per share.
    pub open spec fn fee_per_share(self, amount_in: int, protocol_fee: int) -> int {
        if self.total_shares > 0 {
            arith::quot(
                self.provider_part(amount_in, protocol_fee) * FEE_SCALE,
                self.total_shares as int,
            )
        } else {
            0
        }
    }

    /// The pool after a swap.
    pub open spec fn swapped(self, amount_in: int, a_to_b: bool, protocol_fee: int) -> Pool {
        let out = self.output(amount_in, a_to_b);
        let gain = self.fee_per_share(amount_in, protocol_fee);
        if a_to_b {
            Pool {
                reserve_a: (self.reserve_a + amount_in) as i128,
                reserve_b: (self.reserve_b - out) as i128,
                cumulative_vol_a: (self.cumulative_vol_a + amount_in) as i128,
                fee_a_accum: (self.fee_a_accum + gain) as i128,
                ..self
            }
        } else {
            Pool {
                reserve_b: (self.reserve_b + amount_in) as i128,
                reserve_a: (self.reserve_a - out) as i128,
                cumulative_vol_b: (self.cumulative_vol_b + amount_in) as i128,
                fee_b_accum: (self.fee_b_accum + gain) as i128,
                ..self
            }
        }
    }

    pub open spec fn swapped_defined(
        self,
        amount_in: int,
        a_to_b: bool,
        protocol_fee: int,
    ) -> bool {
        let (volume, accum) = if a_to_b {
            (self.cumulative_vol_a, self.fee_a_accum)
        } else {
            (self.cumulative_vol_b, self.fee_b_accum)
        };
        &&& arith::fits(self.reserve_in(a_to_b) + amount_in)
        &&& arith::fits(self.reserve_out(a_to_b) - self.output(amount_in, a_to_b))
        &&& arith::fits(volume + amount_in)
        &&& self.total_shares > 0 ==> {
            &&& arith::ratio_defined(
                self.provider_part(amount_in, protocol_fee),
                FEE_SCALE as int,
                self.total_shares as int,
            )
            &&& arith::fits(accum + self.fee_per_share(amount_in, protocol_fee))
        }
    }

    /// The price of one token in the other.
    pub open spec fn price(self, a_to_b: bool) -> int {
        arith::quot(self.reserve_out(a_to_b) * WAD, self.reserve_in(a_to_b))
    }

    pub open spec fn price_defined(self, a_to_b: bool) -> bool {
        arith::ratio_defined(self.reserve_out(a_to_b), WAD as int, self.reserve_in(a_to_b))
    }
}

// ── What always holds ─────────────────────────────────────────────

impl Pool {
    /// What holds of a pool at all times.
    pub open spec fn sound(self) -> bool {
        &&& self.fee_tier == FEE_TIER_LOW || self.fee_tier == FEE_TIER_MED || self.fee_tier
            == FEE_TIER_HIGH
        &&& self.reserve_a >= 0
        &&& self.reserve_b >= 0
        &&& self.fee_a_accum >= 0
        &&& self.fee_b_accum >= 0
        &&& self.total_shares >= MIN_LIQUIDITY || (self.total_shares == 0 && self.reserve_a == 0
            && self.reserve_b == 0)
    }

    /// The shares that providers own: all but those that nobody does.
    pub open spec fn owned_shares(self) -> int {
        if self.total_shares == 0 {
            0
        } else {
            self.total_shares - MIN_LIQUIDITY
        }
    }
}

impl LpPosition {
    /// What holds of a position in `pool` at all times.
    pub open spec fn sound(self, pool: Pool) -> bool {
        &&& self.shares >= 0
        &&& self.pending_a >= 0
        &&& self.pending_b >= 0
        &&& 0 <= self.fee_a_debt <= pool.fee_a_accum
        &&& 0 <= self.fee_b_debt <= pool.fee_b_accum
    }
}

/// The shares of one pool that a position holds.
pub open spec fn shares_in(pool_id: Symbol) -> spec_fn((Symbol, Address), LpPosition) -> int {
    |key: (Symbol, Address), position: LpPosition|
        if key.0 == pool_id {
            position.shares as int
        } else {
            0
        }
}

impl LiquidityState {
    /// The contract before it is set up.
    pub open spec fn blank() -> LiquidityState {
        LiquidityState {
            admin: None,
            dao: None,
            earnings: None,
            compliance: None,
            protocol_fee: 0,
            pool_count: 0,
            pools: Map::empty(),
            positions: Map::empty(),
            pool_list: Map::empty(),
        }
    }

    /// The positions in a pool hold the shares that providers own.
    pub open spec fn shares_add_up(self, pool_id: Symbol) -> bool {
        sums::total(self.positions, shares_in(pool_id)) == self.pools[pool_id].owned_shares()
    }

    /// What holds of the contract at all times.
    pub open spec fn sound(self) -> bool {
        &&& self.positions.dom().finite()
        &&& 0 <= self.protocol_fee <= MAX_PROTOCOL_FEE
        &&& forall|id: Symbol| #[trigger]
            self.pools.contains_key(id) ==> self.pools[id].sound() && self.shares_add_up(id)
        &&& forall|key: (Symbol, Address)| #[trigger]
            self.positions.contains_key(key) ==> self.pools.contains_key(key.0)
                && self.positions[key].sound(self.pools[key.0])
    }
}

/// A call that can change the contract.
pub enum Call {
    Initialize { admin: Address, dao: Address, earnings: Address, compliance: Address },
    SetCompliance { dao: Address, compliance: Address },
    CreatePool {
        creator: Address,
        pool_id: Symbol,
        token_a: Address,
        token_b: Address,
        fee_tier: i128,
    },
    AddLiquidity {
        provider: Address,
        pool_id: Symbol,
        amount_a: i128,
        amount_b: i128,
        min_shares: i128,
    },
    RemoveLiquidity {
        provider: Address,
        pool_id: Symbol,
        shares: i128,
        min_a: i128,
        min_b: i128,
    },
    SwapExactIn {
        trader: Address,
        pool_id: Symbol,
        a_to_b: bool,
        amount_in: i128,
        min_out: i128,
        partner_id: u32,
    },
    ClaimFees { provider: Address, pool_id: Symbol },
    SetPaused { admin: Address, pool_id: Symbol, paused: bool },
    SetProtocolFee { dao: Address, fee_bps: i128 },
    Upgrade { new_wasm_hash: WasmHash },
}

impl LiquidityState {
    /// The contract after a call.
    pub open spec fn after(self, env: Context, call: Call) -> LiquidityState {
        match call {
            Call::Initialize { admin, dao, earnings, compliance } => error::next(
                self,
                self.initialize(admin, dao, earnings, compliance),
            ),
            Call::SetCompliance { dao, compliance } => error::next(
                self,
                self.set_compliance(dao, compliance),
            ),
            Call::CreatePool { creator, pool_id, token_a, token_b, fee_tier } => error::next_on(
                self,
                self.create_pool(creator, pool_id, token_a, token_b, fee_tier),
            ),
            Call::AddLiquidity { provider, pool_id, amount_a, amount_b, min_shares } =>
            error::next_on(
                self,
                self.add_liquidity(env, provider, pool_id, amount_a, amount_b, min_shares),
            ),
            Call::RemoveLiquidity { provider, pool_id, shares, min_a, min_b } => error::next_on(
                self,
                self.remove_liquidity(env, provider, pool_id, shares, min_a, min_b),
            ),
            Call::SwapExactIn { trader, pool_id, a_to_b, amount_in, min_out, partner_id } =>
            error::next_on(
                self,
                self.swap_exact_in(env, trader, pool_id, a_to_b, amount_in, min_out, partner_id),
            ),
            Call::ClaimFees { provider, pool_id } => error::next_on(
                self,
                self.claim_fees(env, provider, pool_id),
            ),
            Call::SetPaused { admin, pool_id, paused } => error::next(
                self,
                self.set_paused(admin, pool_id, paused),
            ),
            Call::SetProtocolFee { dao, fee_bps } => error::next(
                self,
                self.set_protocol_fee(dao, fee_bps),
            ),
            Call::Upgrade { new_wasm_hash } => error::next(self, self.upgrade(new_wasm_hash)),
        }
    }
}

// ── The contract ──────────────────────────────────────────────────

/// The effects that pay `amount` of `token` to `to`, if there is anything to
/// pay.
pub open spec fn payment(token: Address, from: Address, to: Address, amount: i128) -> Seq<Effect> {
    if amount > 0 {
        seq![Effect::Transfer { token, from, to, amount }]
    } else {
        Seq::empty()
    }
}

/// The effects that pay out what a position has pending.
pub open spec fn claim_effects(
    env: Context,
    pool_id: Symbol,
    provider: Address,
    pool: Pool,
    position: LpPosition,
) -> Seq<Effect> {
    if position.pending_a == 0 && position.pending_b == 0 {
        Seq::empty()
    } else {
        payment(pool.token_a, env.contract, provider, position.pending_a) + payment(
            pool.token_b,
            env.contract,
            provider,
            position.pending_b,
        ) + seq![
            Effect::ClaimFees(
                ClaimFeesEvent {
                    provider,
                    pool_id,
                    claim_a: position.pending_a,
                    claim_b: position.pending_b,
                },
            ),
        ]
    }
}

impl LiquidityState {
    /// The effects with which a call of `user` begins.
    pub open spec fn gate(self, env: Context, user: Address) -> Seq<Effect> {
        seq![
            Effect::RequireAuth(user),
            Effect::AssertUserCompliant {
                registry: self.compliance->0,
                caller: env.contract,
                user,
            },
        ]
    }

    /// The position of `provider` in a pool, settled if there is one.
    pub open spec fn settled(self, pool_id: Symbol, provider: Address) -> Option<LpPosition> {
        if self.positions.contains_key((pool_id, provider)) {
            Some(self.positions[(pool_id, provider)].settled(self.pools[pool_id]))
        } else {
            None
        }
    }

    pub open spec fn settling_defined(self, pool_id: Symbol, provider: Address) -> bool {
        self.positions.contains_key((pool_id, provider)) ==> self.positions[(
            pool_id,
            provider,
        )].settling_defined(self.pools[pool_id])
    }

    pub open spec fn admin_error(self, caller: Address) -> Option<Error> {
        match self.admin {
            None => Some(Error::NotInitialised),
            Some(admin) => if caller == admin {
                None
            } else {
                Some(Error::AdminOnly)
            },
        }
    }

    pub open spec fn dao_error(self, caller: Address) -> Option<Error> {
        match self.dao {
            None => Some(Error::NotInitialised),
            Some(dao) => if caller == dao {
                None
            } else {
                Some(Error::DaoOnly)
            },
        }
    }

    pub open spec fn initialize(
        self,
        admin: Address,
        dao: Address,
        earnings: Address,
        compliance: Address,
    ) -> Result<(Self, Seq<Effect>), Error> {
        if self.admin is Some {
            Err(Error::AlreadyInitialised)
        } else {
            Ok(
                (
                    LiquidityState {
                        admin: Some(admin),
                        dao: Some(dao),
                        earnings: Some(earnings),
                        compliance: Some(compliance),
                        protocol_fee: INITIAL_PROTOCOL_FEE,
                        pool_count: 0,
                        ..self
                    },
                    seq![Effect::RequireAuth(admin)],
                ),
            )
        }
    }

    pub open spec fn set_compliance(self, dao: Address, compliance: Address) -> Result<
        (Self, Seq<Effect>),
        Error,
    > {
        match self.dao_error(dao) {
            Some(e) => Err(e),
            None => Ok(
                (
                    LiquidityState { compliance: Some(compliance), ..self },
                    seq![Effect::RequireAuth(dao)],
                ),
            ),
        }
    }

    pub open spec fn create_pool(
        self,
        creator: Address,
        pool_id: Symbol,
        token_a: Address,
        token_b: Address,
        fee_tier: i128,
    ) -> Result<(Self, Symbol, Seq<Effect>), Error> {
        if self.admin is None || self.dao is None {
            Err(Error::NotInitialised)
        } else if creator != self.admin->0 && creator != self.dao->0 {
            Err(Error::AdminOrDaoOnly)
        } else if fee_tier != FEE_TIER_LOW && fee_tier != FEE_TIER_MED && fee_tier
            != FEE_TIER_HIGH {
            Err(Error::InvalidFeeTier)
        } else if self.pools.contains_key(pool_id) {
            Err(Error::PoolExists)
        } else if self.pool_count == u32::MAX {
            Err(Error::Arithmetic)
        } else {
            Ok(
                (
                    LiquidityState {
                        pools: self.pools.insert(pool_id, Pool::empty(token_a, token_b, fee_tier)),
                        pool_list: self.pool_list.insert(self.pool_count, pool_id),
                        pool_count: (self.pool_count + 1) as u32,
                        ..self
                    },
                    pool_id,
                    seq![Effect::RequireAuth(creator)],
                ),
            )
        }
    }

    pub open spec fn add_liquidity(
        self,
        env: Context,
        provider: Address,
        pool_id: Symbol,
        amount_a: i128,
        amount_b: i128,
        min_shares: i128,
    ) -> Result<(Self, i128, Seq<Effect>), Error> {
        let pool = self.pools[pool_id];
        let shares = pool.shares_for(amount_a as int, amount_b as int);
        let position = match self.settled(pool_id, provider) {
            Some(p) => p,
            None => LpPosition {
                shares: 0,
                fee_a_debt: pool.fee_a_accum,
                fee_b_debt: pool.fee_b_accum,
                pending_a: 0,
                pending_b: 0,
                deposited_at: env.timestamp,
            },
        };
        if self.compliance is None {
            Err(Error::NotInitialised)
        } else if !self.pools.contains_key(pool_id) {
            Err(Error::PoolNotFound)
        } else if pool.paused {
            Err(Error::PoolPaused)
        } else if amount_a <= 0 || amount_b <= 0 {
            Err(Error::AmountsNotPositive)
        } else if !self.settling_defined(pool_id, provider) || !pool.shares_defined(
            amount_a as int,
            amount_b as int,
        ) {
            Err(Error::Arithmetic)
        } else if pool.total_shares == 0 && shares <= 0 {
            Err(Error::InitialLiquidityTooSmall)
        } else if shares < min_shares {
            Err(Error::SharesBelowMinimum)
        } else if !pool.deposited_defined(amount_a as int, amount_b as int, shares)
            || !arith::fits(position.shares + shares) {
            Err(Error::Arithmetic)
        } else {
            Ok(
                (
                    LiquidityState {
                        pools: self.pools.insert(
                            pool_id,
                            pool.deposited(amount_a as int, amount_b as int, shares),
                        ),
                        positions: self.positions.insert(
                            (pool_id, provider),
                            LpPosition {
                                shares: (position.shares + shares) as i128,
                                fee_a_debt: pool.fee_a_accum,
                                fee_b_debt: pool.fee_b_accum,
                                ..position
                            },
                        ),
                        ..self
                    },
                    shares as i128,
                    self.gate(env, provider) + seq![
                        Effect::Transfer {
                            token: pool.token_a,
                            from: provider,
                            to: env.contract,
                            amount: amount_a,
                        },
                        Effect::Transfer {
                            token: pool.token_b,
                            from: provider,
                            to: env.contract,
                            amount: amount_b,
                        },
                        Effect::AddLiquidity(
                            AddLiquidityEvent {
                                provider,
                                pool_id,
                                amount_a,
                                amount_b,
                                shares: shares as i128,
                            },
                        ),
                    ],
                ),
            )
        }
    }

    pub open spec fn remove_liquidity(
        self,
        env: Context,
        provider: Address,
        pool_id: Symbol,
        shares: i128,
        min_a: i128,
        min_b: i128,
    ) -> Result<(Self, (i128, i128), Seq<Effect>), Error> {
        let pool = self.pools[pool_id];
        let position = self.settled(pool_id, provider)->0;
        let out_a = pool.worth(shares as int, pool.reserve_a as int);
        let out_b = pool.worth(shares as int, pool.reserve_b as int);
        if self.compliance is None {
            Err(Error::NotInitialised)
        } else if !self.pools.contains_key(pool_id) {
            Err(Error::PoolNotFound)
        } else if !self.settling_defined(pool_id, provider) {
            Err(Error::Arithmetic)
        } else if !self.positions.contains_key((pool_id, provider)) {
            Err(Error::NoPosition)
        } else if position.shares < shares {
            Err(Error::InsufficientShares)
        } else if !pool.worth_defined(shares as int) {
            Err(Error::Arithmetic)
        } else if out_a < min_a {
            Err(Error::TokenABelowMinimum)
        } else if out_b < min_b {
            Err(Error::TokenBBelowMinimum)
        } else if !pool.withdrawn_defined(out_a, out_b, shares as int) || !arith::fits(
            position.shares - shares,
        ) {
            Err(Error::Arithmetic)
        } else {
            Ok(
                (
                    LiquidityState {
                        pools: self.pools.insert(
                            pool_id,
                            pool.withdrawn(out_a, out_b, shares as int),
                        ),
                        positions: self.positions.insert(
                            (pool_id, provider),
                            LpPosition {
                                shares: (position.shares - shares) as i128,
                                ..position.paid_out()
                            },
                        ),
                        ..self
                    },
                    (out_a as i128, out_b as i128),
                    self.gate(env, provider) + claim_effects(env, pool_id, provider, pool, position)
                        + seq![
                        Effect::Transfer {
                            token: pool.token_a,
                            from: env.contract,
                            to: provider,
                            amount: out_a as i128,
                        },
                        Effect::Transfer {
                            token: pool.token_b,
                            from: env.contract,
                            to: provider,
                            amount: out_b as i128,
                        },
                        Effect::RemoveLiquidity(
                            RemoveLiquidityEvent {
                                provider,
                                pool_id,
                                out_a: out_a as i128,
                                out_b: out_b as i128,
                                shares,
                            },
                        ),
                    ],
                ),
            )
        }
    }

    pub open spec fn swap_exact_in(
        self,
        env: Context,
        trader: Address,
        pool_id: Symbol,
        a_to_b: bool,
        amount_in: i128,
        min_out: i128,
        partner_id: u32,
    ) -> Result<(Self, i128, Seq<Effect>), Error> {
        let pool = self.pools[pool_id];
        let amount = amount_in as int;
        let protocol_fee = self.protocol_fee as int;
        let out = pool.output(amount, a_to_b);
        let protocol_part = pool.protocol_part(amount, protocol_fee);
        if self.compliance is None {
            Err(Error::NotInitialised)
        } else if !self.pools.contains_key(pool_id) {
            Err(Error::PoolNotFound)
        } else if pool.paused {
            Err(Error::PoolPaused)
        } else if amount_in <= 0 {
            Err(Error::AmountInNotPositive)
        } else if !pool.output_defined(amount, a_to_b) || !pool.parts_defined(amount, protocol_fee)
            || !pool.impact_defined(amount, a_to_b) {
            Err(Error::Arithmetic)
        } else if pool.takes_too_much(amount, a_to_b) {
            Err(Error::PriceImpactTooHigh)
        } else if !pool.swapped_defined(amount, a_to_b, protocol_fee) {
            Err(Error::Arithmetic)
        } else if protocol_part > 0 && self.earnings is None {
            Err(Error::NotInitialised)
        } else if out < min_out {
            Err(Error::OutputBelowMinimum)
        } else {
            Ok(
                (
                    LiquidityState {
                        pools: self.pools.insert(
                            pool_id,
                            pool.swapped(amount, a_to_b, protocol_fee),
                        ),
                        ..self
                    },
                    out as i128,
                    self.gate(env, trader) + seq![
                        Effect::Transfer {
                            token: pool.token_in(a_to_b),
                            from: trader,
                            to: env.contract,
                            amount: amount_in,
                        },
                        Effect::Transfer {
                            token: pool.token_in(!a_to_b),
                            from: env.contract,
                            to: trader,
                            amount: out as i128,
                        },
                    ] + (if protocol_part > 0 {
                        seq![
                            Effect::ReceiveRevenue {
                                distributor: self.earnings->0,
                                sender: env.contract,
                                token: pool.token_in(a_to_b),
                                amount: protocol_part as i128,
                                source: Symbol { head: SWAPFEE, tail: 0 },
                                partner_id,
                            },
                        ]
                    } else {
                        Seq::empty()
                    }) + seq![
                        Effect::Swap(
                            SwapEvent {
                                trader,
                                pool_id,
                                amount_in,
                                amount_out: out as i128,
                                a_to_b,
                                partner_id,
                            },
                        ),
                    ],
                ),
            )
        }
    }

    pub open spec fn claim_fees(self, env: Context, provider: Address, pool_id: Symbol) -> Result<
        (Self, (i128, i128), Seq<Effect>),
        Error,
    > {
        let pool = self.pools[pool_id];
        if self.compliance is None {
            Err(Error::NotInitialised)
        } else if !self.pools.contains_key(pool_id) {
            Err(Error::PoolNotFound)
        } else if !self.settling_defined(pool_id, provider) {
            Err(Error::Arithmetic)
        } else {
            match self.settled(pool_id, provider) {
                None => Ok((self, (0, 0), self.gate(env, provider))),
                Some(position) => Ok(
                    (
                        LiquidityState {
                            positions: self.positions.insert(
                                (pool_id, provider),
                                position.paid_out(),
                            ),
                            ..self
                        },
                        (position.pending_a, position.pending_b),
                        self.gate(env, provider) + claim_effects(
                            env,
                            pool_id,
                            provider,
                            pool,
                            position,
                        ),
                    ),
                ),
            }
        }
    }

    pub open spec fn get_pool(self, pool_id: Symbol) -> Result<Pool, Error> {
        if self.pools.contains_key(pool_id) {
            Ok(self.pools[pool_id])
        } else {
            Err(Error::PoolNotFound)
        }
    }

    pub open spec fn get_lp_position(self, pool_id: Symbol, provider: Address) -> Option<
        LpPosition,
    > {
        if self.positions.contains_key((pool_id, provider)) {
            Some(self.positions[(pool_id, provider)])
        } else {
            None
        }
    }

    pub open spec fn get_price(self, pool_id: Symbol, a_to_b: bool) -> Result<i128, Error> {
        let pool = self.pools[pool_id];
        if !self.pools.contains_key(pool_id) {
            Err(Error::PoolNotFound)
        } else if !pool.price_defined(a_to_b) {
            Err(Error::Arithmetic)
        } else {
            Ok(pool.price(a_to_b) as i128)
        }
    }

    pub open spec fn quote(self, pool_id: Symbol, amount_in: i128, a_to_b: bool) -> Result<
        i128,
        Error,
    > {
        let pool = self.pools[pool_id];
        if !self.pools.contains_key(pool_id) {
            Err(Error::PoolNotFound)
        } else if !pool.output_defined(amount_in as int, a_to_b) {
            Err(Error::Arithmetic)
        } else {
            Ok(pool.output(amount_in as int, a_to_b) as i128)
        }
    }

    pub open spec fn claimable_fees(self, pool_id: Symbol, provider: Address) -> Result<
        (i128, i128),
        Error,
    > {
        let pool = self.pools[pool_id];
        let position = self.positions[(pool_id, provider)];
        if !self.pools.contains_key(pool_id) {
            Err(Error::PoolNotFound)
        } else if !self.positions.contains_key((pool_id, provider)) {
            Ok((0, 0))
        } else if !position.claimable_defined(pool) {
            Err(Error::Arithmetic)
        } else {
            Ok((position.claimable(pool).0 as i128, position.claimable(pool).1 as i128))
        }
    }

    pub open spec fn set_paused(self, admin: Address, pool_id: Symbol, paused: bool) -> Result<
        (Self, Seq<Effect>),
        Error,
    > {
        match self.admin_error(admin) {
            Some(e) => Err(e),
            None => if !self.pools.contains_key(pool_id) {
                Err(Error::PoolNotFound)
            } else {
                Ok(
                    (
                        LiquidityState {
                            pools: self.pools.insert(
                                pool_id,
                                Pool { paused, ..self.pools[pool_id] },
                            ),
                            ..self
                        },
                        seq![Effect::RequireAuth(admin)],
                    ),
                )
            },
        }
    }

    pub open spec fn set_protocol_fee(self, dao: Address, fee_bps: i128) -> Result<
        (Self, Seq<Effect>),
        Error,
    > {
        match self.dao_error(dao) {
            Some(e) => Err(e),
            None => if fee_bps > MAX_PROTOCOL_FEE {
                Err(Error::ProtocolFeeTooHigh)
            } else if fee_bps < 0 {
                Err(Error::ProtocolFeeNegative)
            } else {
                Ok(
                    (
                        LiquidityState { protocol_fee: fee_bps, ..self },
                        seq![Effect::RequireAuth(dao)],
                    ),
                )
            },
        }
    }

    pub open spec fn upgrade(self, new_wasm_hash: WasmHash) -> Result<(Self, Seq<Effect>), Error> {
        match self.dao {
            None => Err(Error::NotInitialised),
            Some(dao) => Ok(
                (self, seq![Effect::RequireAuth(dao), Effect::UpdateWasm(new_wasm_hash)]),
            ),
        }
    }
}

} // verus!
