//! The pool of USDC that stands behind liquidations.
pub mod laws;
pub mod model;
pub mod outcomes;
pub mod stakes;

use crate::arith;
use crate::error::Error;
use crate::stability_pool::model::StabilityState;
use crate::stability_pool::stakes::Stakes;
use crate::table::Table;
use crate::types::{Address, Context, Symbol, WasmHash};
use vstd::prelude::*;

verus! {

/// One, in the pool's fractions.
pub const PRECISION: i128 = 1_000_000_000_000;

/// Below this product a new epoch starts.
pub const EPOCH_FLOOR: i128 = 1_000;

/// `coll`.
pub const COLL: u128 = 0x636f6c6c;

/// The pool as a deposit found it.
#[derive(Clone, Copy, PartialEq, Eq, Structural, Debug)]
pub struct Snapshot {
    /// The product.
    pub p_value: i128,
    /// The collateral gained per stake.
    pub sum_coll: i128,
    pub epoch: u64,
    pub scale: u64,
}

/// What a depositor put in.
#[derive(Clone, Copy, PartialEq, Eq, Structural, Debug)]
pub struct Deposit {
    pub initial_value: i128,
    pub snapshot: Snapshot,
    pub deposited_at: u64,
}

#[derive(Clone, Copy, PartialEq, Eq, Structural, Debug)]
pub struct PoolState {
    /// All the USDC in the pool.
    pub total_deposits: i128,
    /// The product of what every liquidation left, as a fraction.
    pub p: i128,
    pub epoch: u64,
    pub scale: u64,
    /// The collateral gained per stake in this epoch.
    pub sum_coll: i128,
    /// The collateral of all liquidations.
    pub total_coll_gained: i128,
    pub total_liq_count: u64,
    pub paused: bool,
}

#[derive(Clone, Copy, PartialEq, Eq, Structural, Debug)]
pub struct DepositEvent {
    pub depositor: Address,
    pub amount: i128,
}

#[derive(Clone, Copy, PartialEq, Eq, Structural, Debug)]
pub struct WithdrawEvent {
    pub depositor: Address,
    pub amount: i128,
}

#[derive(Clone, Copy, PartialEq, Eq, Structural, Debug)]
pub struct AbsorbLiquidationEvent {
    pub engine: Address,
    pub debt_absorbed: i128,
    pub collateral_reward: i128,
}

#[derive(Clone, Copy, PartialEq, Eq, Structural, Debug)]
pub struct ClaimGainsEvent {
    pub depositor: Address,
    pub gain_type: Symbol,
    pub amount: i128,
}

/// What a call does outside the contract, in the order in which it does it.
#[derive(Clone, Copy, PartialEq, Eq, Structural, Debug)]
pub enum Effect {
    /// The address must have authorised the call.
    RequireAuth(Address),
    /// The compliance registry must let the user act.
    AssertUserCompliant { registry: Address, caller: Address, user: Address },
    /// Tokens change hands.
    Transfer { token: Address, from: Address, to: Address, amount: i128 },
    /// The contract's code is replaced.
    UpdateWasm(WasmHash),
    Deposit(DepositEvent),
    Withdraw(WithdrawEvent),
    Absorb(AbsorbLiquidationEvent),
    Claim(ClaimGainsEvent),
}

/// The pool and its deposits.
pub struct StabilityPool {
    pub admin: Option<Address>,
    pub usdc: Option<Address>,
    pub engine: Option<Address>,
    pub dao: Option<Address>,
    pub compliance: Option<Address>,
    pub pool: Option<PoolState>,
    pub deposits: Table<Address, Deposit>,
    /// The stakes of all deposits of this epoch. A stake is a deposit over the
    /// product under which it was made: collateral is shared out by stake.
    pub stakes: Stakes,
    /// The collateral gained per stake in each epoch that ended.
    pub epoch_sums: Table<u64, i128>,
}

impl View for StabilityPool {
    type V = StabilityState;

    open spec fn view(&self) -> StabilityState {
        StabilityState {
            admin: self.admin,
            usdc: self.usdc,
            engine: self.engine,
            dao: self.dao,
            compliance: self.compliance,
            pool: self.pool,
            deposits: self.deposits@,
            stakes: self.stakes@,
            epoch_sums: self.epoch_sums@,
        }
    }
}

impl StabilityPool {
    /// The contract before it is set up.
    pub fn new() -> (r: StabilityPool)
        ensures
            r@ == StabilityState::blank(),
    {
        StabilityPool {
            admin: None,
            usdc: None,
            engine: None,
            dao: None,
            compliance: None,
            pool: None,
            deposits: Table::new(),
            stakes: Stakes::none(),
            epoch_sums: Table::new(),
        }
    }

    /// Sets up the pool. Once.
    pub fn initialize(
        &mut self,
        admin: Address,
        usdc: Address,
        engine: Address,
        dao: Address,
        compliance: Address,
    ) -> (r: Result<Vec<Effect>, Error>)
        ensures
            crate::error::agrees(
                r,
                old(self)@,
                final(self)@,
                old(self)@.initialize(admin, usdc, engine, dao, compliance),
            ),
    {
        if self.admin.is_some() {
            return Err(Error::AlreadyInitialised);
        }
        self.admin = Some(admin);
        self.usdc = Some(usdc);
        self.engine = Some(engine);
        self.dao = Some(dao);
        self.compliance = Some(compliance);
        self.pool = Some(
            PoolState {
                total_deposits: 0,
                p: PRECISION,
                epoch: 0,
                scale: 0,
                sum_coll: 0,
                total_coll_gained: 0,
                total_liq_count: 0,
                paused: false,
            },
        );
        Ok(vec![Effect::RequireAuth(admin)])
    }

    /// Puts USDC into the pool.
    pub fn deposit(&mut self, env: &Context, depositor: Address, amount: i128) -> (r: Result<
        Vec<Effect>,
        Error,
    >)
        ensures
            crate::error::agrees(
                r,
                old(self)@,
                final(self)@,
                old(self)@.deposit(*env, depositor, amount),
            ),
    {
        let gate: Effect = self._require_kyc(env, depositor)?;
        if amount <= 0 {
            return Err(Error::AmountNotPositive);
        }
        let pool: PoolState = self._get_state()?;
        if pool.paused {
            return Err(Error::PoolPaused);
        }
        let (held, gain) = self._claim_internal(depositor, &pool)?;
        let usdc: Address = match self.usdc {
            Some(a) => a,
            None => return Err(Error::NotInitialised),
        };
        let value: i128 = arith::plus(held, amount)?;
        let total: i128 = arith::plus(pool.total_deposits, amount)?;
        self.renew(env, depositor, &pool, value)?;
        self.pool = Some(PoolState { total_deposits: total, ..pool });
        let mut effects: Vec<Effect> = vec![Effect::RequireAuth(depositor), gate];
        Self::push_claim(&mut effects, depositor, gain);
        effects.push(
            Effect::Transfer { token: usdc, from: depositor, to: env.contract, amount },
        );
        effects.push(Effect::Deposit(DepositEvent { depositor, amount }));
        Ok(effects)
    }

    /// Takes USDC out of the pool: what is asked for, or all there is.
    pub fn withdraw(&mut self, env: &Context, depositor: Address, amount: i128) -> (r: Result<
        (i128, Vec<Effect>),
        Error,
    >)
        ensures
            crate::error::agrees_on(
                r,
                old(self)@,
                final(self)@,
                old(self)@.withdraw(*env, depositor, amount),
            ),
    {
        let gate: Effect = self._require_kyc(env, depositor)?;
        let pool: PoolState = self._get_state()?;
        let (held, gain) = self._claim_internal(depositor, &pool)?;
        if !self.deposits.contains(&depositor) {
            return Err(Error::NoDeposit);
        }
        let out: i128 = if amount <= held {
            amount
        } else {
            held
        };
        if out <= 0 {
            return Err(Error::NothingToWithdraw);
        }
        let left: i128 = held - out;
        let total: i128 = arith::minus(pool.total_deposits, out)?;
        let usdc: Address = match self.usdc {
            Some(a) => a,
            None => return Err(Error::NotInitialised),
        };
        self.renew(env, depositor, &pool, left)?;
        self.pool = Some(PoolState { total_deposits: total, ..pool });
        let mut effects: Vec<Effect> = vec![Effect::RequireAuth(depositor), gate];
        Self::push_claim(&mut effects, depositor, gain);
        effects.push(
            Effect::Transfer { token: usdc, from: env.contract, to: depositor, amount: out },
        );
        effects.push(Effect::Withdraw(WithdrawEvent { depositor, amount: out }));
        Ok((out, effects))
    }

    /// Pays a liquidated debt and takes the collateral for it. Only the
    /// engine calls this.
    pub fn absorb_liquidation(
        &mut self,
        env: &Context,
        engine: Address,
        debt_to_abs: i128,
        coll_reward: i128,
        coll_token: Address,
    ) -> (r: Result<Vec<Effect>, Error>)
        ensures
            crate::error::agrees(
                r,
                old(self)@,
                final(self)@,
                old(self)@.absorb_liquidation(
                    *env,
                    engine,
                    debt_to_abs,
                    coll_reward,
                    coll_token,
                ),
            ),
    {
        match self.engine {
            None => return Err(Error::NotInitialised),
            Some(expected) => if engine != expected {
                return Err(Error::OnlyEngine);
            },
        }
        let pool: PoolState = self._get_state()?;
        if pool.paused {
            return Err(Error::PoolPaused);
        }
        if pool.total_deposits < debt_to_abs {
            return Err(Error::InsufficientPoolDepth);
        }
        let usdc: Address = match self.usdc {
            Some(a) => a,
            None => return Err(Error::NotInitialised),
        };
        self.absorb(&pool, debt_to_abs, coll_reward)?;
        Ok(
            vec![
                Effect::RequireAuth(engine),
                Effect::Transfer {
                    token: coll_token,
                    from: engine,
                    to: env.contract,
                    amount: coll_reward,
                },
                Effect::Transfer {
                    token: usdc,
                    from: env.contract,
                    to: engine,
                    amount: debt_to_abs,
                },
                Effect::Absorb(
                    AbsorbLiquidationEvent {
                        engine,
                        debt_absorbed: debt_to_abs,
                        collateral_reward: coll_reward,
                    },
                ),
            ],
        )
    }

    /// Claims a depositor's collateral, and says how much it is.
    pub fn claim_gains(&mut self, env: &Context, depositor: Address) -> (r: Result<
        (i128, Vec<Effect>),
        Error,
    >)
        ensures
            crate::error::agrees_on(
                r,
                old(self)@,
                final(self)@,
                old(self)@.claim_gains(*env, depositor),
            ),
    {
        let gate: Effect = self._require_kyc(env, depositor)?;
        let pool: PoolState = self._get_state()?;
        let (held, gain) = self._claim_internal(depositor, &pool)?;
        if self.deposits.contains(&depositor) {
            self.renew(env, depositor, &pool, held)?;
        }
        let mut effects: Vec<Effect> = vec![Effect::RequireAuth(depositor), gate];
        Self::push_claim(&mut effects, depositor, gain);
        let claimed: i128 = if gain > 0 {
            gain
        } else {
            0
        };
        Ok((claimed, effects))
    }

    /// What is left of a depositor's USDC.
    pub fn get_compounded_deposit(&self, depositor: Address) -> (r: Result<i128, Error>)
        ensures
            r == self@.get_compounded_deposit(depositor),
    {
        let pool: PoolState = self._get_state()?;
        match self.deposits.get(&depositor) {
            Some(dep) => Self::_compounded_deposit(dep, &pool),
            None => Ok(0),
        }
    }

    /// The collateral that a depositor can claim.
    pub fn get_collateral_gain(&self, depositor: Address) -> (r: Result<i128, Error>)
        ensures
            r == self@.get_collateral_gain(depositor),
    {
        let pool: PoolState = self._get_state()?;
        match self.deposits.get(&depositor) {
            Some(dep) => Self::_coll_gain(dep, self.sum_for(dep, &pool)),
            None => Ok(0),
        }
    }

    /// The pool.
    pub fn get_state(&self) -> (r: Result<PoolState, Error>)
        ensures
            r == match self@.pool {
                Some(pool) => Ok::<PoolState, Error>(pool),
                None => Err(Error::NotInitialised),
            },
    {
        self._get_state()
    }

    /// All the USDC in the pool.
    pub fn get_total_deposits(&self) -> (r: Result<i128, Error>)
        ensures
            r == match self@.pool {
                Some(pool) => Ok::<i128, Error>(pool.total_deposits),
                None => Err(Error::NotInitialised),
            },
    {
        let pool: PoolState = self._get_state()?;
        Ok(pool.total_deposits)
    }

    /// A depositor's deposit.
    pub fn get_deposit(&self, depositor: Address) -> (r: Option<Deposit>)
        ensures
            r == if self@.deposits.contains_key(depositor) {
                Some(self@.deposits[depositor])
            } else {
                None
            },
    {
        match self.deposits.get(&depositor) {
            Some(dep) => Some(*dep),
            None => None,
        }
    }

    /// Pauses the pool, or lets it go on.
    pub fn set_paused(&mut self, admin: Address, paused: bool) -> (r: Result<Vec<Effect>, Error>)
        ensures
            crate::error::agrees(r, old(self)@, final(self)@, old(self)@.set_paused(admin, paused)),
    {
        self._require_admin(admin)?;
        let pool: PoolState = self._get_state()?;
        self.pool = Some(PoolState { paused, ..pool });
        Ok(vec![Effect::RequireAuth(admin)])
    }

    /// Points the contract at another compliance registry.
    pub fn set_compliance(&mut self, dao: Address, compliance: Address) -> (r: Result<
        Vec<Effect>,
        Error,
    >)
        ensures
            crate::error::agrees(
                r,
                old(self)@,
                final(self)@,
                old(self)@.set_compliance(dao, compliance),
            ),
    {
        match self.dao {
            None => Err(Error::NotInitialised),
            Some(current) => if dao == current {
                self.compliance = Some(compliance);
                Ok(vec![Effect::RequireAuth(dao)])
            } else {
                Err(Error::DaoOnly)
            },
        }
    }

    /// Replaces the contract's code; its state stays.
    pub fn upgrade(&mut self, _dao: Address, new_wasm_hash: WasmHash) -> (r: Result<
        Vec<Effect>,
        Error,
    >)
        ensures
            crate::error::agrees(r, old(self)@, final(self)@, old(self)@.upgrade(new_wasm_hash)),
    {
        match self.dao {
            None => Err(Error::NotInitialised),
            Some(dao) => Ok(
                vec![Effect::RequireAuth(dao), Effect::UpdateWasm(new_wasm_hash)],
            ),
        }
    }

    /// What is left of a deposit.
    pub fn _compounded_deposit(dep: &Deposit, state: &PoolState) -> (r: Result<i128, Error>)
        ensures
            r == model::compounded(*dep, *state),
    {
        if dep.snapshot.epoch != state.epoch {
            return Ok(0);
        }
        let base: i128 = if dep.snapshot.p_value >= 1 {
            dep.snapshot.p_value
        } else {
            1
        };
        let ratio: i128 = arith::ratio(state.p, PRECISION, base)?;
        arith::ratio(dep.initial_value, ratio, PRECISION)
    }

    /// The collateral that a deposit earned while the gain per stake went up to
    /// `sum`.
    pub fn _coll_gain(dep: &Deposit, sum: i128) -> (r: Result<i128, Error>)
        ensures
            r == model::coll_gain(*dep, sum),
    {
        if dep.initial_value == 0 {
            return Ok(0);
        }
        let base: i128 = if dep.snapshot.p_value >= 1 {
            dep.snapshot.p_value
        } else {
            1
        };
        let delta: i128 = arith::minus(sum, dep.snapshot.sum_coll)?;
        arith::ratio(dep.initial_value, delta, base)
    }

    /// The gain per stake that a deposit shares in so far.
    fn sum_for(&self, dep: &Deposit, pool: &PoolState) -> (r: i128)
        requires
            self.pool == Some(*pool),
        ensures
            r == self@.sum_for(*dep),
    {
        if dep.snapshot.epoch == pool.epoch {
            pool.sum_coll
        } else {
            match self.epoch_sums.get(&dep.snapshot.epoch) {
                Some(sum) => *sum,
                None => dep.snapshot.sum_coll,
            }
        }
    }

    /// The pool as a deposit finds it.
    pub fn _current_snapshot(state: &PoolState) -> (r: Snapshot)
        ensures
            r == state.snapshot(),
    {
        Snapshot {
            p_value: state.p,
            sum_coll: state.sum_coll,
            epoch: state.epoch,
            scale: state.scale,
        }
    }

    /// Pays a debt and takes collateral for it.
    fn absorb(&mut self, pool: &PoolState, debt: i128, coll: i128) -> (r: Result<(), Error>)
        requires
            old(self).pool == Some(*pool),
        ensures
            match old(self)@.absorbed(debt, coll) {
                Err(e) => r == Err::<(), Error>(e) && final(self)@ == old(self)@,
                Ok(next) => r is Ok && final(self)@ == next,
            },
    {
        let total: i128 = pool.total_deposits;
        let loss: i128 = arith::times_over(debt, PRECISION, total)?;
        let fall: i128 = arith::times_over(pool.p, loss, PRECISION)?;
        let p: i128 = arith::minus(pool.p, fall)?;
        let scaled: i128 = arith::times(coll, PRECISION)?;
        let gain: i128 = self.stakes.each(scaled);
        let sum_coll: i128 = arith::plus(pool.sum_coll, gain)?;
        let total_deposits: i128 = arith::minus(total, debt)?;
        let total_coll_gained: i128 = arith::plus(pool.total_coll_gained, coll)?;
        if pool.total_liq_count == u64::MAX {
            return Err(Error::Arithmetic);
        }
        let next = PoolState {
            total_deposits,
            p,
            sum_coll,
            total_coll_gained,
            total_liq_count: pool.total_liq_count + 1,
            ..*pool
        };
        if p >= EPOCH_FLOOR {
            self.pool = Some(next);
            return Ok(());
        }
        if pool.epoch == u64::MAX {
            return Err(Error::Arithmetic);
        }
        self.epoch_sums.insert(pool.epoch, sum_coll);
        self.stakes = Stakes::none();
        self.pool = Some(
            PoolState { epoch: pool.epoch + 1, scale: 0, sum_coll: 0, p: PRECISION, ..next },
        );
        Ok(())
    }

    /// What is left of a depositor's USDC, and the collateral to claim.
    fn _claim_internal(&self, depositor: Address, pool: &PoolState) -> (r: Result<
        (i128, i128),
        Error,
    >)
        requires
            self.pool == Some(*pool),
        ensures
            r == self@.settled(depositor),
    {
        match self.deposits.get(&depositor) {
            None => Ok((0, 0)),
            Some(dep) => {
                let gain: i128 = Self::_coll_gain(dep, self.sum_for(dep, pool))?;
                let held: i128 = Self::_compounded_deposit(dep, pool)?;
                Ok((held, gain))
            },
        }
    }

    /// Lets a depositor hold a value from now on.
    fn renew(&mut self, env: &Context, depositor: Address, pool: &PoolState, value: i128) -> (r:
        Result<(), Error>)
        requires
            old(self).pool == Some(*pool),
        ensures
            match old(self)@.renewed(*env, depositor, value) {
                Err(e) => r == Err::<(), Error>(e) && final(self)@ == old(self)@,
                Ok(next) => r is Ok && final(self)@ == next,
            },
    {
        let mut before: Stakes = Stakes::none();
        let mut deposited_at: u64 = env.timestamp;
        if let Some(dep) = self.deposits.get(&depositor) {
            deposited_at = dep.deposited_at;
            if dep.snapshot.epoch == pool.epoch {
                before = Stakes::of(dep.initial_value, dep.snapshot.p_value);
            }
        }
        let others: Stakes = self.stakes.minus(before)?;
        self.stakes = others.plus(Stakes::of(value, pool.p))?;
        self.deposits.insert(
            depositor,
            Deposit {
                initial_value: value,
                snapshot: Self::_current_snapshot(pool),
                deposited_at,
            },
        );
        Ok(())
    }

    /// Adds the event of a claim.
    fn push_claim(effects: &mut Vec<Effect>, depositor: Address, gain: i128)
        ensures
            final(effects)@ == old(effects)@ + model::claim_effects(depositor, gain),
    {
        if gain > 0 {
            effects.push(
                Effect::Claim(
                    ClaimGainsEvent {
                        depositor,
                        gain_type: Symbol { head: COLL, tail: 0 },
                        amount: gain,
                    },
                ),
            );
        }
    }

    /// The check that a user may act.
    fn _require_kyc(&self, env: &Context, user: Address) -> (r: Result<Effect, Error>)
        ensures
            r == match self@.compliance {
                None => Err::<Effect, Error>(Error::NotInitialised),
                Some(registry) => Ok(
                    Effect::AssertUserCompliant { registry, caller: env.contract, user },
                ),
            },
    {
        match self.compliance {
            None => Err(Error::NotInitialised),
            Some(registry) => Ok(
                Effect::AssertUserCompliant { registry, caller: env.contract, user },
            ),
        }
    }

    fn _get_state(&self) -> (r: Result<PoolState, Error>)
        ensures
            r == match self@.pool {
                Some(pool) => Ok::<PoolState, Error>(pool),
                None => Err(Error::NotInitialised),
            },
    {
        match self.pool {
            Some(pool) => Ok(pool),
            None => Err(Error::NotInitialised),
        }
    }

    fn _require_admin(&self, caller: Address) -> (r: Result<(), Error>)
        ensures
            r == match self@.admin_error(caller) {
                None => Ok::<(), Error>(()),
                Some(e) => Err(e),
            },
    {
        match self.admin {
            None => Err(Error::NotInitialised),
            Some(admin) => if caller == admin {
                Ok(())
            } else {
                Err(Error::AdminOnly)
            },
        }
    }
}

} // verus!
