//! Constant-product pools of two tokens.
//!
//! Providers put in both tokens and hold shares of the pool; traders swap one
//! token for the other and pay a fee, most of which accrues to the shares and
//! the rest of which goes to the earnings distributor.
pub mod laws;
pub mod model;
pub mod outcomes;

use crate::arith;
use crate::error::Error;
use crate::liquidity_pool::model::LiquidityState;
use crate::table::Table;
use crate::types::{Address, Context, WasmHash, Symbol};
use vstd::prelude::*;

verus! {

/// The fee tiers, in hundredths of a percent: stable, major and exotic pairs.
pub const FEE_TIER_LOW: i128 = 5;

pub const FEE_TIER_MED: i128 = 30;

pub const FEE_TIER_HIGH: i128 = 100;

/// Hundredths of a percent in a whole.
pub const PRECISION: i128 = 10_000;

/// The unit of the prices that a pool quotes.
pub const WAD: i128 = 10_000_000;

/// The largest part of a reserve that one swap may take, in hundredths of a
/// percent.
pub const MAX_PRICE_IMPACT: i128 = 100;

/// Shares of the first deposit that nobody owns.
pub const MIN_LIQUIDITY: i128 = 1_000;

/// The unit of the fees per share that a pool accumulates.
pub const FEE_SCALE: i128 = 1_000_000_000_000;

/// The largest part of the swap fee that goes to the protocol.
pub const MAX_PROTOCOL_FEE: i128 = 2_500;

/// The part of the swap fee that goes to the protocol at first.
pub const INITIAL_PROTOCOL_FEE: i128 = 500;

/// `swapfee`.
pub const SWAPFEE: u128 = 0x73_77_61_70_66_65_65;

/// A pool of two tokens.
#[derive(Clone, Copy, PartialEq, Eq, Structural, Debug)]
pub struct Pool {
    pub token_a: Address,
    pub token_b: Address,
    pub reserve_a: i128,
    pub reserve_b: i128,
    pub total_shares: i128,
    /// Hundredths of a percent.
    pub fee_tier: i128,
    /// Fees per share ever earned, in token a and in token b, in units of
    /// [`FEE_SCALE`].
    pub fee_a_accum: i128,
    pub fee_b_accum: i128,
    /// What was ever sold to the pool.
    pub cumulative_vol_a: i128,
    pub cumulative_vol_b: i128,
    pub paused: bool,
}

/// What one provider holds of a pool.
#[derive(Clone, Copy, PartialEq, Eq, Structural, Debug)]
pub struct LpPosition {
    pub shares: i128,
    /// Fees per share up to which the position was settled.
    pub fee_a_debt: i128,
    pub fee_b_debt: i128,
    /// Fees earned and not yet claimed.
    pub pending_a: i128,
    pub pending_b: i128,
    pub deposited_at: u64,
}

#[derive(Clone, Copy, PartialEq, Eq, Structural, Debug)]
pub struct AddLiquidityEvent {
    pub provider: Address,
    pub pool_id: Symbol,
    pub amount_a: i128,
    pub amount_b: i128,
    pub shares: i128,
}

#[derive(Clone, Copy, PartialEq, Eq, Structural, Debug)]
pub struct RemoveLiquidityEvent {
    pub provider: Address,
    pub pool_id: Symbol,
    pub out_a: i128,
    pub out_b: i128,
    pub shares: i128,
}

#[derive(Clone, Copy, PartialEq, Eq, Structural, Debug)]
pub struct SwapEvent {
    pub trader: Address,
    pub pool_id: Symbol,
    pub amount_in: i128,
    pub amount_out: i128,
    pub a_to_b: bool,
    /// Zero for a swap that no partner referred.
    pub partner_id: u32,
}

#[derive(Clone, Copy, PartialEq, Eq, Structural, Debug)]
pub struct ClaimFeesEvent {
    pub provider: Address,
    pub pool_id: Symbol,
    pub claim_a: i128,
    pub claim_b: i128,
}

/// What a call does outside the contract, in the order in which it does it.
#[derive(Clone, Copy, PartialEq, Eq, Structural, Debug)]
pub enum Effect {
    /// The address must have authorised the call.
    RequireAuth(Address),
    /// The compliance registry must let the user act.
    AssertUserCompliant { registry: Address, caller: Address, user: Address },
    /// Tokens change hands.
    Transfer { token: Address, from: Address, to: Address, amount: i128 },
    /// The earnings distributor collects a fee from `sender`.
    ReceiveRevenue {
        distributor: Address,
        sender: Address,
        token: Address,
        amount: i128,
        source: Symbol,
        partner_id: u32,
    },
    /// The contract's code is replaced.
    UpdateWasm(WasmHash),
    AddLiquidity(AddLiquidityEvent),
    RemoveLiquidity(RemoveLiquidityEvent),
    Swap(SwapEvent),
    ClaimFees(ClaimFeesEvent),
}

/// The pools and the positions in them.
pub struct LiquidityPool {
    pub admin: Option<Address>,
    pub dao: Option<Address>,
    pub earnings: Option<Address>,
    pub compliance: Option<Address>,
    /// The protocol's part of the swap fee, in hundredths of a percent.
    pub protocol_fee: i128,
    pub pool_count: u32,
    pub pools: Table<Symbol, Pool>,
    pub positions: Table<(Symbol, Address), LpPosition>,
    /// The pools in the order in which they were created.
    pub pool_list: Table<u32, Symbol>,
}

impl View for LiquidityPool {
    type V = LiquidityState;

    open spec fn view(&self) -> LiquidityState {
        LiquidityState {
            admin: self.admin,
            dao: self.dao,
            earnings: self.earnings,
            compliance: self.compliance,
            protocol_fee: self.protocol_fee,
            pool_count: self.pool_count,
            pools: self.pools@,
            positions: self.positions@,
            pool_list: self.pool_list@,
        }
    }
}

impl LiquidityPool {
    /// The contract before it is set up.
    pub fn new() -> (r: LiquidityPool)
        ensures
            r@ == LiquidityState::blank(),
    {
        LiquidityPool {
            admin: None,
            dao: None,
            earnings: None,
            compliance: None,
            protocol_fee: 0,
            pool_count: 0,
            pools: Table::new(),
            positions: Table::new(),
            pool_list: Table::new(),
        }
    }

    /// The square root, rounded down, of a number that is not negative; two
    /// alone is its own result. A negative number is handed back.
    pub fn _sqrt(x: i128) -> (r: i128)
        ensures
            r == model::sqrt(x as int),
            x >= 0 && x != 2 ==> r >= 0 && r * r <= x < (r + 1) * (r + 1),
            x == 2 || x < 0 ==> r == x,
    {
        if x == 0 {
            proof {
                model::lemma_sqrt_unique(0, 0);
            }
            return 0;
        }
        if x < 0 {
            return x;
        }
        let mut z: i128 = x;
        let mut y: i128 = (x / 2) + 1;
        proof {
            assert((x + 1) * (x + 1) > x) by (nonlinear_arith)
                requires
                    x > 0,
            ;
            let h: int = (x / 2) as int;
            assert((h + 2) * (h + 2) > x) by (nonlinear_arith)
                requires
                    x > 0,
                    2 * h + 1 >= x,
                    h >= 0,
            ;
        }
        while y < z
            invariant
                x > 0,
                1 <= y <= x / 2 + 1,
                1 <= z <= x,
                (z + 1) * (z + 1) > x,
                (y + 1) * (y + 1) > x,
                (z == x && y == x / 2 + 1) || y == (x / z + z) / 2,
                x == 2 ==> z == 2 && y == 2,
            decreases z,
        {
            z = y;
            proof {
                if y == 1 {
                    assert((y + 1) * (y + 1) == 4) by (nonlinear_arith)
                        requires
                            y == 1,
                    ;
                } else {
                    assert(x / y <= x / 2) by (nonlinear_arith)
                        requires
                            y >= 2,
                            x > 0,
                    ;
                }
                let q: int = x as int / y as int;
                let n: int = (q + y) / 2;
                assert(x < y * (q + 1)) by (nonlinear_arith)
                    requires
                        q == x as int / y as int,
                        y >= 1,
                ;
                assert((n + 1) * (n + 1) > x) by (nonlinear_arith)
                    requires
                        2 * (n + 1) >= (q + 1) + y,
                        q + 1 + y >= 0,
                        x < y * (q + 1),
                ;
                assert(q >= 0 && (y == 1 ==> q == x)) by (nonlinear_arith)
                    requires
                        q == x as int / y as int,
                        y >= 1,
                        x > 0,
                ;
            }
            y = (x / y + y) / 2;
        }
        proof {
            if z == x && y == x / 2 + 1 {
                assert(x <= 2);
                if x == 1 {
                    model::lemma_sqrt_unique(1, 1);
                }
            } else {
                let q: int = x as int / z as int;
                assert(q >= z);
                assert(z * z <= x) by (nonlinear_arith)
                    requires
                        q == x as int / z as int,
                        q >= z,
                        z >= 1,
                        x > 0,
                ;
                if x == 2 {
                    assert(z * z == 4) by (nonlinear_arith)
                        requires
                            z == 2,
                    ;
                }
                model::lemma_sqrt_unique(x as int, z as int);
            }
        }
        z
    }

    /// Sets up the contract. Once.
    pub fn initialize(
        &mut self,
        admin: Address,
        dao: Address,
        earnings: Address,
        compliance: Address,
    ) -> (r: Result<Vec<Effect>, Error>)
        ensures
            crate::error::agrees(
                r,
                old(self)@,
                final(self)@,
                old(self)@.initialize(admin, dao, earnings, compliance),
            ),
    {
        if self.admin.is_some() {
            return Err(Error::AlreadyInitialised);
        }
        self.admin = Some(admin);
        self.dao = Some(dao);
        self.earnings = Some(earnings);
        self.compliance = Some(compliance);
        self.protocol_fee = INITIAL_PROTOCOL_FEE;
        self.pool_count = 0;
        Ok(vec![Effect::RequireAuth(admin)])
    }

    /// Points the contract at another compliance registry.
    pub fn set_compliance(&mut self, dao: Address, compliance: Address) -> (r: Result<
        Vec<Effect>,
        Error,
    >)
        ensures
            crate::error::agrees(r, old(self)@, final(self)@, old(self)@.set_compliance(dao, compliance)),
    {
        self._require_dao(dao)?;
        self.compliance = Some(compliance);
        Ok(vec![Effect::RequireAuth(dao)])
    }

    /// Creates an empty pool.
    pub fn create_pool(
        &mut self,
        creator: Address,
        pool_id: Symbol,
        token_a: Address,
        token_b: Address,
        fee_tier: i128,
    ) -> (r: Result<(Symbol, Vec<Effect>), Error>)
        ensures
            crate::error::agrees_on(
                r,
                old(self)@,
                final(self)@,
                old(self)@.create_pool(creator, pool_id, token_a, token_b, fee_tier),
            ),
    {
        let (admin, dao) = match (self.admin, self.dao) {
            (Some(admin), Some(dao)) => (admin, dao),
            _ => return Err(Error::NotInitialised),
        };
        if creator != admin && creator != dao {
            return Err(Error::AdminOrDaoOnly);
        }
        if fee_tier != FEE_TIER_LOW && fee_tier != FEE_TIER_MED && fee_tier != FEE_TIER_HIGH {
            return Err(Error::InvalidFeeTier);
        }
        if self.pools.contains(&pool_id) {
            return Err(Error::PoolExists);
        }
        let count: u32 = self.pool_count;
        if count == u32::MAX {
            return Err(Error::Arithmetic);
        }
        let pool = Pool {
            token_a,
            token_b,
            reserve_a: 0,
            reserve_b: 0,
            total_shares: 0,
            fee_tier,
            fee_a_accum: 0,
            fee_b_accum: 0,
            cumulative_vol_a: 0,
            cumulative_vol_b: 0,
            paused: false,
        };
        self.pools.insert(pool_id, pool);
        self.pool_list.insert(count, pool_id);
        self.pool_count = count + 1;
        Ok((pool_id, vec![Effect::RequireAuth(creator)]))
    }

    /// Puts both tokens into a pool and mints shares of it to the provider.
    pub fn add_liquidity(
        &mut self,
        env: &Context,
        provider: Address,
        pool_id: Symbol,
        amount_a: i128,
        amount_b: i128,
        min_shares: i128,
    ) -> (r: Result<(i128, Vec<Effect>), Error>)
        ensures
            crate::error::agrees_on(
                r,
                old(self)@,
                final(self)@,
                old(self)@.add_liquidity(
                    *env,
                    provider,
                    pool_id,
                    amount_a,
                    amount_b,
                    min_shares,
                ),
            ),
    {
        let compliant = self._require_kyc(env, provider)?;
        let mut pool = self._get_pool(pool_id)?;
        if pool.paused {
            return Err(Error::PoolPaused);
        }
        if amount_a <= 0 || amount_b <= 0 {
            return Err(Error::AmountsNotPositive);
        }
        let held = self._settle_fees(pool_id, provider, &pool)?;
        let shares: i128;
        if pool.total_shares == 0 {
            let product: i128 = arith::times(amount_a, amount_b)?;
            proof {
                assert(product > 0) by (nonlinear_arith)
                    requires
                        product == amount_a * amount_b,
                        amount_a > 0,
                        amount_b > 0,
                ;
            }
            shares = arith::minus(Self::_sqrt(product), MIN_LIQUIDITY)?;
            if shares <= 0 {
                return Err(Error::InitialLiquidityTooSmall);
            }
            pool.total_shares = MIN_LIQUIDITY;
        } else {
            let s_a: i128 = arith::times_over(amount_a, pool.total_shares, pool.reserve_a)?;
            let s_b: i128 = arith::times_over(amount_b, pool.total_shares, pool.reserve_b)?;
            shares = if s_a <= s_b {
                s_a
            } else {
                s_b
            };
        }
        if shares < min_shares {
            return Err(Error::SharesBelowMinimum);
        }
        pool.reserve_a = arith::plus(pool.reserve_a, amount_a)?;
        pool.reserve_b = arith::plus(pool.reserve_b, amount_b)?;
        pool.total_shares = arith::plus(pool.total_shares, shares)?;
        let mut position = match held {
            Some(p) => p,
            None => LpPosition {
                shares: 0,
                fee_a_debt: pool.fee_a_accum,
                fee_b_debt: pool.fee_b_accum,
                pending_a: 0,
                pending_b: 0,
                deposited_at: env.timestamp,
            },
        };
        position.shares = arith::plus(position.shares, shares)?;
        position.fee_a_debt = pool.fee_a_accum;
        position.fee_b_debt = pool.fee_b_accum;
        self.positions.insert((pool_id, provider), position);
        self.pools.insert(pool_id, pool);
        let effects = vec![
            Effect::RequireAuth(provider),
            compliant,
            Effect::Transfer {
                token: pool.token_a,
                from: provider,
                to: env.contract,
                amount: amount_a,
            },
            Effect::Transfer {
                token: pool.token_b,
                from: provider,
                to: env.contract,
                amount: amount_b,
            },
            Effect::AddLiquidity(
                AddLiquidityEvent { provider, pool_id, amount_a, amount_b, shares },
            ),
        ];
        Ok((shares, effects))
    }

    /// Burns shares of a pool and pays the provider what they are worth, and
    /// the fees that they earned.
    pub fn remove_liquidity(
        &mut self,
        env: &Context,
        provider: Address,
        pool_id: Symbol,
        shares: i128,
        min_a: i128,
        min_b: i128,
    ) -> (r: Result<((i128, i128), Vec<Effect>), Error>)
        ensures
            crate::error::agrees_on(
                r,
                old(self)@,
                final(self)@,
                old(self)@.remove_liquidity(*env, provider, pool_id, shares, min_a, min_b),
            ),
    {
        let compliant = self._require_kyc(env, provider)?;
        let mut pool = self._get_pool(pool_id)?;
        let held = self._settle_fees(pool_id, provider, &pool)?;
        let mut position = match held {
            Some(p) => p,
            None => return Err(Error::NoPosition),
        };
        if position.shares < shares {
            return Err(Error::InsufficientShares);
        }
        let out_a: i128 = arith::times_over(shares, pool.reserve_a, pool.total_shares)?;
        let out_b: i128 = arith::times_over(shares, pool.reserve_b, pool.total_shares)?;
        if out_a < min_a {
            return Err(Error::TokenABelowMinimum);
        }
        if out_b < min_b {
            return Err(Error::TokenBBelowMinimum);
        }
        pool.reserve_a = arith::minus(pool.reserve_a, out_a)?;
        pool.reserve_b = arith::minus(pool.reserve_b, out_b)?;
        pool.total_shares = arith::minus(pool.total_shares, shares)?;
        let left: i128 = arith::minus(position.shares, shares)?;
        let mut effects = vec![Effect::RequireAuth(provider), compliant];
        Self::_do_claim(env, pool_id, provider, &pool, &mut position, &mut effects);
        position.shares = left;
        self.pools.insert(pool_id, pool);
        self.positions.insert((pool_id, provider), position);
        effects.push(
            Effect::Transfer {
                token: pool.token_a,
                from: env.contract,
                to: provider,
                amount: out_a,
            },
        );
        effects.push(
            Effect::Transfer {
                token: pool.token_b,
                from: env.contract,
                to: provider,
                amount: out_b,
            },
        );
        effects.push(
            Effect::RemoveLiquidity(
                RemoveLiquidityEvent { provider, pool_id, out_a, out_b, shares },
            ),
        );
        Ok(((out_a, out_b), effects))
    }

    /// Sells `amount_in` of one token for the other. A `partner_id` of zero
    /// leaves the whole protocol fee to the protocol.
    pub fn swap_exact_in(
        &mut self,
        env: &Context,
        trader: Address,
        pool_id: Symbol,
        a_to_b: bool,
        amount_in: i128,
        min_out: i128,
        partner_id: u32,
    ) -> (r: Result<(i128, Vec<Effect>), Error>)
        ensures
            crate::error::agrees_on(
                r,
                old(self)@,
                final(self)@,
                old(self)@.swap_exact_in(
                    *env,
                    trader,
                    pool_id,
                    a_to_b,
                    amount_in,
                    min_out,
                    partner_id,
                ),
            ),
    {
        let compliant = self._require_kyc(env, trader)?;
        let mut pool = self._get_pool(pool_id)?;
        if pool.paused {
            return Err(Error::PoolPaused);
        }
        if amount_in <= 0 {
            return Err(Error::AmountInNotPositive);
        }
        let ghost before = pool;
        let total_fee: i128 = arith::times_over(amount_in, pool.fee_tier, PRECISION)?;
        let protocol_part: i128 = arith::times_over(total_fee, self.protocol_fee, PRECISION)?;
        let provider_part: i128 = arith::minus(total_fee, protocol_part)?;
        let net: i128 = arith::minus(amount_in, total_fee)?;
        let (reserve_in, reserve_out) = if a_to_b {
            (pool.reserve_a, pool.reserve_b)
        } else {
            (pool.reserve_b, pool.reserve_a)
        };
        let grown: i128 = arith::plus(reserve_in, net)?;
        let amount_out: i128 = arith::times_over(reserve_out, net, grown)?;
        let scaled: i128 = arith::times(amount_out, PRECISION)?;
        if reserve_out == 0 {
            return Err(Error::Arithmetic);
        }
        let too_much: bool = match reserve_out.checked_mul(MAX_PRICE_IMPACT) {
            Some(most) => scaled > most,
            None => reserve_out < 0,
        };
        if too_much {
            return Err(Error::PriceImpactTooHigh);
        }
        let reserve_in: i128 = arith::plus(reserve_in, amount_in)?;
        let reserve_out: i128 = arith::minus(reserve_out, amount_out)?;
        let gain: i128 = if pool.total_shares > 0 {
            arith::times_over(provider_part, FEE_SCALE, pool.total_shares)?
        } else {
            0
        };
        let token_in: Address;
        let token_out: Address;
        if a_to_b {
            pool.reserve_a = reserve_in;
            pool.reserve_b = reserve_out;
            pool.cumulative_vol_a = arith::plus(pool.cumulative_vol_a, amount_in)?;
            pool.fee_a_accum = arith::plus(pool.fee_a_accum, gain)?;
            token_in = pool.token_a;
            token_out = pool.token_b;
        } else {
            pool.reserve_b = reserve_in;
            pool.reserve_a = reserve_out;
            pool.cumulative_vol_b = arith::plus(pool.cumulative_vol_b, amount_in)?;
            pool.fee_b_accum = arith::plus(pool.fee_b_accum, gain)?;
            token_in = pool.token_b;
            token_out = pool.token_a;
        }
        let mut effects = vec![
            Effect::RequireAuth(trader),
            compliant,
            Effect::Transfer {
                token: token_in,
                from: trader,
                to: env.contract,
                amount: amount_in,
            },
            Effect::Transfer {
                token: token_out,
                from: env.contract,
                to: trader,
                amount: amount_out,
            },
        ];
        if protocol_part > 0 {
            match self.earnings {
                None => return Err(Error::NotInitialised),
                Some(distributor) => {
                    effects.push(
                        Effect::ReceiveRevenue {
                            distributor,
                            sender: env.contract,
                            token: token_in,
                            amount: protocol_part,
                            source: Symbol { head: SWAPFEE, tail: 0 },
                            partner_id,
                        },
                    );
                },
            }
        }
        if amount_out < min_out {
            return Err(Error::OutputBelowMinimum);
        }
        self.pools.insert(pool_id, pool);
        effects.push(
            Effect::Swap(
                SwapEvent { trader, pool_id, amount_in, amount_out, a_to_b, partner_id },
            ),
        );
        Ok((amount_out, effects))
    }

    /// Pays the provider the fees that the position earned.
    pub fn claim_fees(&mut self, env: &Context, provider: Address, pool_id: Symbol) -> (r: Result<
        ((i128, i128), Vec<Effect>),
        Error,
    >)
        ensures
            crate::error::agrees_on(
                r,
                old(self)@,
                final(self)@,
                old(self)@.claim_fees(*env, provider, pool_id),
            ),
    {
        let compliant = self._require_kyc(env, provider)?;
        let pool = self._get_pool(pool_id)?;
        let held = self._settle_fees(pool_id, provider, &pool)?;
        let mut effects = vec![Effect::RequireAuth(provider), compliant];
        match held {
            None => Ok(((0, 0), effects)),
            Some(settled) => {
                let mut position = settled;
                let paid = Self::_do_claim(
                    env,
                    pool_id,
                    provider,
                    &pool,
                    &mut position,
                    &mut effects,
                );
                self.positions.insert((pool_id, provider), position);
                Ok((paid, effects))
            },
        }
    }

    /// The pool.
    pub fn get_pool(&self, pool_id: Symbol) -> (r: Result<Pool, Error>)
        ensures
            r == self@.get_pool(pool_id),
    {
        self._get_pool(pool_id)
    }

    /// What a provider holds of a pool.
    pub fn get_lp_position(&self, pool_id: Symbol, provider: Address) -> (r: Option<LpPosition>)
        ensures
            r == self@.get_lp_position(pool_id, provider),
    {
        match self.positions.get(&(pool_id, provider)) {
            Some(p) => Some(*p),
            None => None,
        }
    }

    /// The price of one token in the other, in units of [`WAD`].
    pub fn get_price(&self, pool_id: Symbol, a_to_b: bool) -> (r: Result<i128, Error>)
        ensures
            r == self@.get_price(pool_id, a_to_b),
    {
        let pool = self._get_pool(pool_id)?;
        if a_to_b {
            arith::times_over(pool.reserve_b, WAD, pool.reserve_a)
        } else {
            arith::times_over(pool.reserve_a, WAD, pool.reserve_b)
        }
    }

    /// What an amount would buy now.
    pub fn quote(&self, pool_id: Symbol, amount_in: i128, a_to_b: bool) -> (r: Result<i128, Error>)
        ensures
            r == self@.quote(pool_id, amount_in, a_to_b),
    {
        let pool = self._get_pool(pool_id)?;
        let fee: i128 = arith::times_over(amount_in, pool.fee_tier, PRECISION)?;
        let net: i128 = arith::minus(amount_in, fee)?;
        let (reserve_in, reserve_out) = if a_to_b {
            (pool.reserve_a, pool.reserve_b)
        } else {
            (pool.reserve_b, pool.reserve_a)
        };
        let grown: i128 = arith::plus(reserve_in, net)?;
        arith::times_over(reserve_out, net, grown)
    }

    /// The fees that a provider could claim now.
    pub fn claimable_fees(&self, pool_id: Symbol, provider: Address) -> (r: Result<
        (i128, i128),
        Error,
    >)
        ensures
            r == self@.claimable_fees(pool_id, provider),
    {
        let pool = self._get_pool(pool_id)?;
        match self.positions.get(&(pool_id, provider)) {
            None => Ok((0, 0)),
            Some(p) => {
                let a: i128 = accrue(p.pending_a, pool.fee_a_accum, p.fee_a_debt, p.shares)?;
                let b: i128 = accrue(p.pending_b, pool.fee_b_accum, p.fee_b_debt, p.shares)?;
                Ok((a, b))
            },
        }
    }

    /// Pauses a pool, or lets it go on.
    pub fn set_paused(&mut self, admin: Address, pool_id: Symbol, paused: bool) -> (r: Result<
        Vec<Effect>,
        Error,
    >)
        ensures
            crate::error::agrees(r, old(self)@, final(self)@, old(self)@.set_paused(admin, pool_id, paused)),
    {
        self._require_admin(admin)?;
        let mut pool = self._get_pool(pool_id)?;
        pool.paused = paused;
        self.pools.insert(pool_id, pool);
        Ok(vec![Effect::RequireAuth(admin)])
    }

    /// Sets the protocol's part of the swap fee.
    pub fn set_protocol_fee(&mut self, dao: Address, fee_bps: i128) -> (r: Result<
        Vec<Effect>,
        Error,
    >)
        ensures
            crate::error::agrees(r, old(self)@, final(self)@, old(self)@.set_protocol_fee(dao, fee_bps)),
    {
        self._require_dao(dao)?;
        if fee_bps > MAX_PROTOCOL_FEE {
            return Err(Error::ProtocolFeeTooHigh);
        }
        if fee_bps < 0 {
            return Err(Error::ProtocolFeeNegative);
        }
        self.protocol_fee = fee_bps;
        Ok(vec![Effect::RequireAuth(dao)])
    }

    /// Replaces the contract's code; what it stores stays. The DAO that is
    /// stored must authorise this.
    pub fn upgrade(&mut self, _dao: Address, new_wasm_hash: WasmHash) -> (r: Result<
        Vec<Effect>,
        Error,
    >)
        ensures
            crate::error::agrees(r, old(self)@, final(self)@, old(self)@.upgrade(new_wasm_hash)),
    {
        match self.dao {
            None => Err(Error::NotInitialised),
            Some(dao) => Ok(
                vec![Effect::RequireAuth(dao), Effect::UpdateWasm(new_wasm_hash)],
            ),
        }
    }

    /// The position of a provider, with what it earned made pending.
    fn _settle_fees(&self, pool_id: Symbol, provider: Address, pool: &Pool) -> (r: Result<
        Option<LpPosition>,
        Error,
    >)
        requires
            self@.pools[pool_id] == *pool,
        ensures
            !self@.settling_defined(pool_id, provider) ==> r == Err::<Option<LpPosition>, Error>(
                Error::Arithmetic,
            ),
            self@.settling_defined(pool_id, provider) ==> r == Ok::<Option<LpPosition>, Error>(
                self@.settled(pool_id, provider),
            ),
    {
        match self.positions.get(&(pool_id, provider)) {
            None => Ok(None),
            Some(p) => {
                let mut position = *p;
                if position.shares == 0 {
                    return Ok(Some(position));
                }
                position.pending_a = accrue(
                    position.pending_a,
                    pool.fee_a_accum,
                    position.fee_a_debt,
                    position.shares,
                )?;
                position.pending_b = accrue(
                    position.pending_b,
                    pool.fee_b_accum,
                    position.fee_b_debt,
                    position.shares,
                )?;
                position.fee_a_debt = pool.fee_a_accum;
                position.fee_b_debt = pool.fee_b_accum;
                Ok(Some(position))
            },
        }
    }

    /// Pays out what a settled position has pending.
    fn _do_claim(
        env: &Context,
        pool_id: Symbol,
        provider: Address,
        pool: &Pool,
        position: &mut LpPosition,
        effects: &mut Vec<Effect>,
    ) -> (r: (i128, i128))
        ensures
            r == (old(position).pending_a, old(position).pending_b),
            *final(position) == old(position).paid_out(),
            final(effects)@ == old(effects)@ + model::claim_effects(
                *env,
                pool_id,
                provider,
                *pool,
                *old(position),
            ),
    {
        let claim_a: i128 = position.pending_a;
        let claim_b: i128 = position.pending_b;
        if claim_a == 0 && claim_b == 0 {
            return (0, 0);
        }
        position.pending_a = 0;
        position.pending_b = 0;
        if claim_a > 0 {
            effects.push(
                Effect::Transfer {
                    token: pool.token_a,
                    from: env.contract,
                    to: provider,
                    amount: claim_a,
                },
            );
        }
        if claim_b > 0 {
            effects.push(
                Effect::Transfer {
                    token: pool.token_b,
                    from: env.contract,
                    to: provider,
                    amount: claim_b,
                },
            );
        }
        effects.push(Effect::ClaimFees(ClaimFeesEvent { provider, pool_id, claim_a, claim_b }));
        (claim_a, claim_b)
    }

    fn _get_pool(&self, pool_id: Symbol) -> (r: Result<Pool, Error>)
        ensures
            r == self@.get_pool(pool_id),
    {
        match self.pools.get(&pool_id) {
            Some(pool) => Ok(*pool),
            None => Err(Error::PoolNotFound),
        }
    }

    /// Nobody adds or removes liquidity, swaps or claims fees whom the
    /// compliance registry does not let act.
    fn _require_kyc(&self, env: &Context, user: Address) -> (r: Result<Effect, Error>)
        ensures
            self@.compliance is None ==> r == Err::<Effect, Error>(Error::NotInitialised),
            self@.compliance is Some ==> r == Ok::<Effect, Error>(self@.gate(*env, user)[1]),
    {
        match self.compliance {
            None => Err(Error::NotInitialised),
            Some(registry) => Ok(
                Effect::AssertUserCompliant { registry, caller: env.contract, user },
            ),
        }
    }

    fn _require_admin(&self, caller: Address) -> (r: Result<(), Error>)
        ensures
            r == match self@.admin_error(caller) {
                None => Ok::<(), Error>(()),
                Some(e) => Err(e),
            },
    {
        match self.admin {
            None => Err(Error::NotInitialised),
            Some(admin) => if caller == admin {
                Ok(())
            } else {
                Err(Error::AdminOnly)
            },
        }
    }

    fn _require_dao(&self, caller: Address) -> (r: Result<(), Error>)
        ensures
            r == match self@.dao_error(caller) {
                None => Ok::<(), Error>(()),
                Some(e) => Err(e),
            },
    {
        match self.dao {
            None => Err(Error::NotInitialised),
            Some(dao) => if caller == dao {
                Ok(())
            } else {
                Err(Error::DaoOnly)
            },
        }
    }
}

/// What is pending, with what `shares` earned since.
fn accrue(pending: i128, accum: i128, debt: i128, shares: i128) -> (r: Result<i128, Error>)
    ensures
        !model::accrual_defined(pending as int, accum as int, debt as int, shares as int) ==> r
            == Err::<i128, Error>(Error::Arithmetic),
        model::accrual_defined(pending as int, accum as int, debt as int, shares as int) ==> r
            == Ok::<i128, Error>(
            (pending + model::accrued(accum as int, debt as int, shares as int)) as i128,
        ),
{
    let growth: i128 = arith::minus(accum, debt)?;
    proof {
        if arith::fits(growth * shares) {
            arith::lemma_quot_range(growth * shares, FEE_SCALE as int);
        }
    }
    let earned: i128 = arith::times_over(growth, shares, FEE_SCALE)?;
    arith::plus(pending, earned)
}

} // verus!
