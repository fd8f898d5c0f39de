//! What each call on the stability pool does to it.
use crate::arith;
use crate::error;
use crate::error::Error;
use crate::stability_pool::stakes;
use crate::stability_pool::{
    AbsorbLiquidationEvent, ClaimGainsEvent, Deposit, DepositEvent, Effect, PoolState, Snapshot,
    WithdrawEvent, COLL, EPOCH_FLOOR, PRECISION,
};
use crate::sums;
use crate::types::{Address, Context, Symbol, WasmHash};
use vstd::prelude::*;

verus! {

/// The state of the contract.
#[verifier::ext_equal]
pub struct StabilityState {
    pub admin: Option<Address>,
    pub usdc: Option<Address>,
    pub engine: Option<Address>,
    pub dao: Option<Address>,
    pub compliance: Option<Address>,
    pub pool: Option<PoolState>,
    pub deposits: Map<Address, Deposit>,
    /// The stakes of all deposits of this epoch.
    pub stakes: int,
    /// The collateral gained per stake in each epoch that ended.
    pub epoch_sums: Map<u64, i128>,
}

/// What a value that was put in under a product counts when collateral is
/// shared out: the value over the product, rounded up.
pub open spec fn stake(value: int, p_value: int) -> int {
    let base = arith::max(p_value, 1);
    if value <= 0 {
        0
    } else {
        arith::quot(value * PRECISION + base - 1, base)
    }
}

impl PoolState {
    /// The pool as it is set up.
    pub open spec fn empty() -> PoolState {
        PoolState {
            total_deposits: 0,
            p: PRECISION,
            epoch: 0,
            scale: 0,
            sum_coll: 0,
            total_coll_gained: 0,
            total_liq_count: 0,
            paused: false,
        }
    }

    /// The pool's product, sum, epoch and scale.
    pub open spec fn snapshot(self) -> Snapshot {
        Snapshot { p_value: self.p, sum_coll: self.sum_coll, epoch: self.epoch, scale: self.scale }
    }

    /// The collateral per stake that a liquidation brings; nothing where nobody
    /// has a stake, or where there are more stakes than any amount.
    pub open spec fn per_stake(stakes: int, coll: i128) -> int {
        if 0 < stakes <= i128::MAX {
            arith::quot(coll * PRECISION, stakes)
        } else {
            0
        }
    }

    /// The pool after it paid `debt` and took `coll`, the epoch going on: the
    /// product falls by the part of the deposits that is paid, and the
    /// collateral is shared out by stake.
    pub open spec fn paid(self, stakes: int, debt: i128, coll: i128) -> Result<PoolState, Error> {
        let total = self.total_deposits as int;
        let loss = arith::quot(debt * PRECISION, total);
        let fall = arith::quot(self.p * loss, PRECISION as int);
        let gain = PoolState::per_stake(stakes, coll);
        if !arith::ratio_defined(debt as int, PRECISION as int, total) || !arith::ratio_defined(
            self.p as int,
            loss,
            PRECISION as int,
        ) || !arith::fits(self.p - fall) || !arith::fits(coll * PRECISION) || !arith::fits(
            self.sum_coll + gain,
        ) || !arith::fits(total - debt) || !arith::fits(self.total_coll_gained + coll)
            || self.total_liq_count == u64::MAX {
            Err(Error::Arithmetic)
        } else {
            Ok(
                PoolState {
                    total_deposits: (total - debt) as i128,
                    p: (self.p - fall) as i128,
                    sum_coll: (self.sum_coll + gain) as i128,
                    total_coll_gained: (self.total_coll_gained + coll) as i128,
                    total_liq_count: (self.total_liq_count + 1) as u64,
                    ..self
                },
            )
        }
    }

    /// The pool at the start of the next epoch.
    pub open spec fn next_epoch(self) -> PoolState {
        PoolState {
            epoch: (self.epoch + 1) as u64,
            scale: 0,
            sum_coll: 0,
            p: PRECISION,
            ..self
        }
    }
}

/// What is left of a deposit: it shrinks with the product since its snapshot,
/// and is lost with its epoch.
pub open spec fn compounded(dep: Deposit, pool: PoolState) -> Result<i128, Error> {
    let base = arith::max(dep.snapshot.p_value as int, 1);
    let ratio = arith::quot(pool.p * PRECISION, base);
    if dep.snapshot.epoch != pool.epoch {
        Ok(0)
    } else if !arith::divisible(pool.p * PRECISION, base) || !arith::divisible(
        dep.initial_value * ratio,
        PRECISION as int,
    ) {
        Err(Error::Arithmetic)
    } else {
        Ok(arith::quot(dep.initial_value * ratio, PRECISION as int) as i128)
    }
}

/// The collateral that a deposit earned while the gain per stake went up to
/// `sum`.
pub open spec fn coll_gain(dep: Deposit, sum: i128) -> Result<i128, Error> {
    let base = arith::max(dep.snapshot.p_value as int, 1);
    let delta = sum - dep.snapshot.sum_coll;
    if dep.initial_value == 0 {
        Ok(0)
    } else if !arith::fits(delta) || !arith::divisible(dep.initial_value * delta, base) {
        Err(Error::Arithmetic)
    } else {
        Ok(arith::quot(dep.initial_value * delta, base) as i128)
    }
}

/// The effects of a claim.
pub open spec fn claim_effects(depositor: Address, gain: i128) -> Seq<Effect> {
    if gain > 0 {
        seq![
            Effect::Claim(
                ClaimGainsEvent {
                    depositor,
                    gain_type: Symbol { head: COLL, tail: 0 },
                    amount: gain,
                },
            ),
        ]
    } else {
        Seq::empty()
    }
}

impl StabilityState {
    /// The contract before it is set up.
    pub open spec fn blank() -> StabilityState {
        StabilityState {
            admin: None,
            usdc: None,
            engine: None,
            dao: None,
            compliance: None,
            pool: None,
            deposits: Map::empty(),
            stakes: 0,
            epoch_sums: Map::empty(),
        }
    }

    pub open spec fn admin_error(self, caller: Address) -> Option<Error> {
        match self.admin {
            None => Some(Error::NotInitialised),
            Some(admin) => if caller == admin {
                None
            } else {
                Some(Error::AdminOnly)
            },
        }
    }

    pub open spec fn initialize(
        self,
        admin: Address,
        usdc: Address,
        engine: Address,
        dao: Address,
        compliance: Address,
    ) -> Result<(Self, Seq<Effect>), Error> {
        if self.admin is Some {
            Err(Error::AlreadyInitialised)
        } else {
            Ok(
                (
                    StabilityState {
                        admin: Some(admin),
                        usdc: Some(usdc),
                        engine: Some(engine),
                        dao: Some(dao),
                        compliance: Some(compliance),
                        pool: Some(PoolState::empty()),
                        ..self
                    },
                    seq![Effect::RequireAuth(admin)],
                ),
            )
        }
    }

    /// What a user's call starts with.
    pub open spec fn gate(self, env: Context, user: Address) -> Seq<Effect> {
        seq![
            Effect::RequireAuth(user),
            Effect::AssertUserCompliant {
                registry: self.compliance->0,
                caller: env.contract,
                user,
            },
        ]
    }

    /// The gain per stake that a deposit shares in so far: that of its epoch,
    /// as it is or as it ended.
    pub open spec fn sum_for(self, dep: Deposit) -> i128 {
        if dep.snapshot.epoch == self.pool->0.epoch {
            self.pool->0.sum_coll
        } else if self.epoch_sums.contains_key(dep.snapshot.epoch) {
            self.epoch_sums[dep.snapshot.epoch]
        } else {
            dep.snapshot.sum_coll
        }
    }

    /// What is left of a depositor's USDC, and the collateral to claim; nothing
    /// of either without a deposit.
    pub open spec fn settled(self, depositor: Address) -> Result<(i128, i128), Error> {
        if !self.deposits.contains_key(depositor) {
            Ok((0, 0))
        } else {
            let dep = self.deposits[depositor];
            match coll_gain(dep, self.sum_for(dep)) {
                Err(e) => Err(e),
                Ok(gain) => match compounded(dep, self.pool->0) {
                    Err(e) => Err(e),
                    Ok(held) => Ok((held, gain)),
                },
            }
        }
    }

    /// What a depositor's stake counts in this epoch.
    pub open spec fn stake_of(self, depositor: Address) -> int {
        if self.deposits.contains_key(depositor) {
            staked_in(self.pool->0.epoch)(depositor, self.deposits[depositor])
        } else {
            0
        }
    }

    /// The state in which a depositor holds a value from now on.
    pub open spec fn renewed(self, env: Context, depositor: Address, value: i128) -> Result<
        Self,
        Error,
    > {
        let pool = self.pool->0;
        let others = self.stakes - self.stake_of(depositor);
        let own = stake(value as int, pool.p as int);
        if others < 0 || others + own >= stakes::word() * stakes::word() {
            Err(Error::Arithmetic)
        } else {
            Ok(
                StabilityState {
                    deposits: self.deposits.insert(
                        depositor,
                        Deposit {
                            initial_value: value,
                            snapshot: pool.snapshot(),
                            deposited_at: if self.deposits.contains_key(depositor) {
                                self.deposits[depositor].deposited_at
                            } else {
                                env.timestamp
                            },
                        },
                    ),
                    stakes: others + own,
                    ..self
                },
            )
        }
    }

    /// The state with another amount in the pool.
    pub open spec fn with_total(self, total: int) -> Self {
        StabilityState {
            pool: Some(PoolState { total_deposits: total as i128, ..self.pool->0 }),
            ..self
        }
    }

    pub open spec fn deposit(self, env: Context, depositor: Address, amount: i128) -> Result<
        (Self, Seq<Effect>),
        Error,
    > {
        if self.compliance is None {
            Err(Error::NotInitialised)
        } else if amount <= 0 {
            Err(Error::AmountNotPositive)
        } else if self.pool is None {
            Err(Error::NotInitialised)
        } else if self.pool->0.paused {
            Err(Error::PoolPaused)
        } else {
            match self.settled(depositor) {
                Err(e) => Err(e),
                Ok((held, gain)) => {
                    let total = self.pool->0.total_deposits + amount;
                    if self.usdc is None {
                        Err(Error::NotInitialised)
                    } else if !arith::fits(held + amount) || !arith::fits(total) {
                        Err(Error::Arithmetic)
                    } else {
                        match self.renewed(env, depositor, (held + amount) as i128) {
                            Err(e) => Err(e),
                            Ok(next) => Ok(
                                (
                                    next.with_total(total),
                                    self.gate(env, depositor) + claim_effects(depositor, gain)
                                        + seq![
                                        Effect::Transfer {
                                            token: self.usdc->0,
                                            from: depositor,
                                            to: env.contract,
                                            amount,
                                        },
                                        Effect::Deposit(DepositEvent { depositor, amount }),
                                    ],
                                ),
                            ),
                        }
                    }
                },
            }
        }
    }

    pub open spec fn withdraw(self, env: Context, depositor: Address, amount: i128) -> Result<
        (Self, i128, Seq<Effect>),
        Error,
    > {
        if self.compliance is None || self.pool is None {
            Err(Error::NotInitialised)
        } else {
            match self.settled(depositor) {
                Err(e) => Err(e),
                Ok((held, gain)) => {
                    let out = arith::min(amount as int, held as int);
                    let total = self.pool->0.total_deposits - out;
                    if !self.deposits.contains_key(depositor) {
                        Err(Error::NoDeposit)
                    } else if out <= 0 {
                        Err(Error::NothingToWithdraw)
                    } else if !arith::fits(total) {
                        Err(Error::Arithmetic)
                    } else if self.usdc is None {
                        Err(Error::NotInitialised)
                    } else {
                        match self.renewed(env, depositor, (held - out) as i128) {
                            Err(e) => Err(e),
                            Ok(next) => Ok(
                                (
                                    next.with_total(total),
                                    out as i128,
                                    self.gate(env, depositor) + claim_effects(depositor, gain)
                                        + seq![
                                        Effect::Transfer {
                                            token: self.usdc->0,
                                            from: env.contract,
                                            to: depositor,
                                            amount: out as i128,
                                        },
                                        Effect::Withdraw(
                                            WithdrawEvent { depositor, amount: out as i128 },
                                        ),
                                    ],
                                ),
                            ),
                        }
                    }
                },
            }
        }
    }

    /// The state after the pool paid a debt and took collateral. Below the
    /// floor of the product a new epoch starts; what the old one gained per
    /// stake is kept.
    pub open spec fn absorbed(self, debt: i128, coll: i128) -> Result<Self, Error> {
        match self.pool->0.paid(self.stakes, debt, coll) {
            Err(e) => Err(e),
            Ok(pool) => if pool.p >= EPOCH_FLOOR {
                Ok(StabilityState { pool: Some(pool), ..self })
            } else if pool.epoch == u64::MAX {
                Err(Error::Arithmetic)
            } else {
                Ok(
                    StabilityState {
                        pool: Some(pool.next_epoch()),
                        stakes: 0,
                        epoch_sums: self.epoch_sums.insert(pool.epoch, pool.sum_coll),
                        ..self
                    },
                )
            },
        }
    }

    pub open spec fn absorb_liquidation(
        self,
        env: Context,
        engine: Address,
        debt_to_abs: i128,
        coll_reward: i128,
        coll_token: Address,
    ) -> Result<(Self, Seq<Effect>), Error> {
        if self.engine is None {
            Err(Error::NotInitialised)
        } else if self.engine->0 != engine {
            Err(Error::OnlyEngine)
        } else if self.pool is None {
            Err(Error::NotInitialised)
        } else if self.pool->0.paused {
            Err(Error::PoolPaused)
        } else if self.pool->0.total_deposits < debt_to_abs {
            Err(Error::InsufficientPoolDepth)
        } else if self.usdc is None {
            Err(Error::NotInitialised)
        } else {
            match self.absorbed(debt_to_abs, coll_reward) {
                Err(e) => Err(e),
                Ok(next) => Ok(
                    (
                        next,
                        seq![
                            Effect::RequireAuth(engine),
                            Effect::Transfer {
                                token: coll_token,
                                from: engine,
                                to: env.contract,
                                amount: coll_reward,
                            },
                            Effect::Transfer {
                                token: self.usdc->0,
                                from: env.contract,
                                to: engine,
                                amount: debt_to_abs,
                            },
                            Effect::Absorb(
                                AbsorbLiquidationEvent {
                                    engine,
                                    debt_absorbed: debt_to_abs,
                                    collateral_reward: coll_reward,
                                },
                            ),
                        ],
                    ),
                ),
            }
        }
    }

    pub open spec fn claim_gains(self, env: Context, depositor: Address) -> Result<
        (Self, i128, Seq<Effect>),
        Error,
    > {
        if self.compliance is None || self.pool is None {
            Err(Error::NotInitialised)
        } else if !self.deposits.contains_key(depositor) {
            Ok((self, 0, self.gate(env, depositor)))
        } else {
            match self.settled(depositor) {
                Err(e) => Err(e),
                Ok((held, gain)) => match self.renewed(env, depositor, held) {
                    Err(e) => Err(e),
                    Ok(next) => Ok(
                        (
                            next,
                            arith::max(gain as int, 0) as i128,
                            self.gate(env, depositor) + claim_effects(depositor, gain),
                        ),
                    ),
                },
            }
        }
    }

    pub open spec fn get_compounded_deposit(self, depositor: Address) -> Result<i128, Error> {
        if self.pool is None {
            Err(Error::NotInitialised)
        } else if self.deposits.contains_key(depositor) {
            compounded(self.deposits[depositor], self.pool->0)
        } else {
            Ok(0)
        }
    }

    pub open spec fn get_collateral_gain(self, depositor: Address) -> Result<i128, Error> {
        if self.pool is None {
            Err(Error::NotInitialised)
        } else if self.deposits.contains_key(depositor) {
            coll_gain(self.deposits[depositor], self.sum_for(self.deposits[depositor]))
        } else {
            Ok(0)
        }
    }

    pub open spec fn set_paused(self, admin: Address, paused: bool) -> Result<
        (Self, Seq<Effect>),
        Error,
    > {
        match self.admin_error(admin) {
            Some(e) => Err(e),
            None => if self.pool is None {
                Err(Error::NotInitialised)
            } else {
                Ok(
                    (
                        StabilityState {
                            pool: Some(PoolState { paused, ..self.pool->0 }),
                            ..self
                        },
                        seq![Effect::RequireAuth(admin)],
                    ),
                )
            },
        }
    }

    pub open spec fn set_compliance(self, dao: Address, compliance: Address) -> Result<
        (Self, Seq<Effect>),
        Error,
    > {
        match self.dao {
            None => Err(Error::NotInitialised),
            Some(current) => if dao == current {
                Ok(
                    (
                        StabilityState { compliance: Some(compliance), ..self },
                        seq![Effect::RequireAuth(dao)],
                    ),
                )
            } else {
                Err(Error::DaoOnly)
            },
        }
    }

    pub open spec fn upgrade(self, new_wasm_hash: WasmHash) -> Result<(Self, Seq<Effect>), Error> {
        match self.dao {
            None => Err(Error::NotInitialised),
            Some(dao) => Ok(
                (self, seq![Effect::RequireAuth(dao), Effect::UpdateWasm(new_wasm_hash)]),
            ),
        }
    }

    // ── What always holds ─────────────────────────────────────────

    /// What all depositors together may claim, and could if nothing were rounded
    /// off, in parts of [`PRECISION`].
    pub open spec fn owed(self) -> int {
        let pool = self.pool->0;
        sums::total(self.deposits, owed_to(pool.epoch, pool.sum_coll, self.epoch_sums))
    }

    /// What all depositors together can claim.
    pub open spec fn gains(self) -> int {
        sums::total(
            self.deposits,
            |a: Address, dep: Deposit| self.get_collateral_gain(a)->Ok_0 as int,
        )
    }

    /// What holds of the pool at all times: it has all its settings once it is
    /// set up, the product stays between its floor and one, the stakes add up,
    /// no deposit is negative or newer than the pool, and no more collateral is
    /// owed than was received.
    pub open spec fn sound(self) -> bool {
        &&& self.deposits.dom().finite()
        &&& (self.admin is Some) == (self.pool is Some)
        &&& (self.usdc is Some) == (self.pool is Some)
        &&& (self.engine is Some) == (self.pool is Some)
        &&& (self.dao is Some) == (self.pool is Some)
        &&& (self.compliance is Some) == (self.pool is Some)
        &&& self.pool is None ==> self.stakes == 0
        &&& self.pool matches Some(pool) ==> {
            &&& EPOCH_FLOOR <= pool.p <= PRECISION
            &&& pool.sum_coll >= 0
            &&& self.stakes == sums::total(self.deposits, staked_in(pool.epoch))
            &&& self.stakes < stakes::word() * stakes::word()
            &&& self.owed() <= pool.total_coll_gained * PRECISION
        }
        &&& forall|a: Address| #[trigger] self.deposits.contains_key(a) ==> self.deposit_sound(a)
    }

    pub open spec fn deposit_sound(self, a: Address) -> bool {
        let dep = self.deposits[a];
        let pool = self.pool->0;
        &&& self.pool is Some
        &&& dep.initial_value >= 0
        &&& EPOCH_FLOOR <= dep.snapshot.p_value <= PRECISION
        &&& dep.snapshot.epoch <= pool.epoch
        &&& dep.snapshot.epoch == pool.epoch ==> pool.p <= dep.snapshot.p_value
        &&& dep.snapshot.epoch < pool.epoch ==> self.epoch_sums.contains_key(dep.snapshot.epoch)
        &&& 0 <= dep.snapshot.sum_coll <= self.sum_for(dep)
    }
}

/// What a deposit counts in an epoch.
pub open spec fn staked_in(epoch: u64) -> spec_fn(Address, Deposit) -> int {
    |a: Address, dep: Deposit|
        if dep.snapshot.epoch == epoch {
            stake(dep.initial_value as int, dep.snapshot.p_value as int)
        } else {
            0
        }
}

/// What a deposit may claim, in parts of [`PRECISION`].
pub open spec fn owed_to(epoch: u64, sum: i128, epoch_sums: Map<u64, i128>) -> spec_fn(
    Address,
    Deposit,
) -> int {
    |a: Address, dep: Deposit|
        stake(dep.initial_value as int, dep.snapshot.p_value as int) * ((if dep.snapshot.epoch
            == epoch {
            sum
        } else {
            epoch_sums[dep.snapshot.epoch]
        }) - dep.snapshot.sum_coll)
}

/// A call that can change the contract.
pub enum Call {
    Initialize {
        admin: Address,
        usdc: Address,
        engine: Address,
        dao: Address,
        compliance: Address,
    },
    Deposit { depositor: Address, amount: i128 },
    Withdraw { depositor: Address, amount: i128 },
    AbsorbLiquidation {
        engine: Address,
        debt_to_abs: i128,
        coll_reward: i128,
        coll_token: Address,
    },
    ClaimGains { depositor: Address },
    SetPaused { admin: Address, paused: bool },
    SetCompliance { dao: Address, compliance: Address },
    Upgrade { new_wasm_hash: WasmHash },
}

impl StabilityState {
    /// The contract after a call.
    pub open spec fn after(self, env: Context, call: Call) -> StabilityState {
        match call {
            Call::Initialize { admin, usdc, engine, dao, compliance } => error::next(
                self,
                self.initialize(admin, usdc, engine, dao, compliance),
            ),
            Call::Deposit { depositor, amount } => error::next(
                self,
                self.deposit(env, depositor, amount),
            ),
            Call::Withdraw { depositor, amount } => error::next_on(
                self,
                self.withdraw(env, depositor, amount),
            ),
            Call::AbsorbLiquidation { engine, debt_to_abs, coll_reward, coll_token } => error::next(
                self,
                self.absorb_liquidation(env, engine, debt_to_abs, coll_reward, coll_token),
            ),
            Call::ClaimGains { depositor } => error::next_on(
                self,
                self.claim_gains(env, depositor),
            ),
            Call::SetPaused { admin, paused } => error::next(self, self.set_paused(admin, paused)),
            Call::SetCompliance { dao, compliance } => error::next(
                self,
                self.set_compliance(dao, compliance),
            ),
            Call::Upgrade { new_wasm_hash } => error::next(self, self.upgrade(new_wasm_hash)),
        }
    }

    /// The depositor whose call it is.
    pub open spec fn caller(call: Call) -> Option<Address> {
        match call {
            Call::Deposit { depositor, .. } => Some(depositor),
            Call::Withdraw { depositor, .. } => Some(depositor),
            Call::ClaimGains { depositor } => Some(depositor),
            _ => None,
        }
    }

    /// The USDC that a call brings into the pool.
    pub open spec fn usdc_in(self, env: Context, call: Call) -> int {
        match call {
            Call::Deposit { depositor, amount } => match self.deposit(env, depositor, amount) {
                Ok(_) => amount as int,
                Err(_) => 0,
            },
            Call::Withdraw { depositor, amount } => match self.withdraw(env, depositor, amount) {
                Ok((_, out, _)) => -out,
                Err(_) => 0,
            },
            Call::AbsorbLiquidation { engine, debt_to_abs, coll_reward, coll_token } => match self.absorb_liquidation(
                env,
                engine,
                debt_to_abs,
                coll_reward,
                coll_token,
            ) {
                Ok(_) => -debt_to_abs,
                Err(_) => 0,
            },
            _ => 0,
        }
    }

    /// The collateral that a call brings into the pool.
    pub open spec fn coll_in(self, env: Context, call: Call) -> int {
        match call {
            Call::AbsorbLiquidation { engine, debt_to_abs, coll_reward, coll_token } => match self.absorb_liquidation(
                env,
                engine,
                debt_to_abs,
                coll_reward,
                coll_token,
            ) {
                Ok(_) => coll_reward as int,
                Err(_) => 0,
            },
            _ => 0,
        }
    }

    /// The collateral that a call claims.
    pub open spec fn coll_out(self, env: Context, call: Call) -> int {
        let accepted = match call {
            Call::Deposit { depositor, amount } => self.deposit(env, depositor, amount) is Ok,
            Call::Withdraw { depositor, amount } => self.withdraw(env, depositor, amount) is Ok,
            Call::ClaimGains { depositor } => self.claim_gains(env, depositor) is Ok,
            _ => false,
        };
        if accepted {
            self.get_collateral_gain(Self::caller(call)->0)->Ok_0 as int
        } else {
            0
        }
    }
}

} // verus!
