//! Protocol revenue, and who gets which part of it.
//!
//! Revenue that a partner brought is shared with that partner first. What is
//! left belongs to the protocol: when an epoch closes, it goes to the
//! treasury, the developers, the stability pool and the liquidity pools, and
//! the depositors of the stability pool claim the rest.
pub mod laws;
pub mod model;
pub mod outcomes;

use crate::arith;
use crate::earnings_distributor::model::EarningsState;
use crate::error::Error;
use crate::table;
use crate::table::Table;
use crate::types::{Address, Context, Symbol, WasmHash};
use vstd::prelude::*;

verus! {

/// Hundredths of a percent in a whole.
pub const PRECISION: i128 = 10_000;

/// How long an epoch lasts, in seconds: seven days.
pub const EPOCH_DURATION: u64 = 604_800;

/// The parts of what is left after the partner's share: for the depositors of
/// the stability pool, the liquidity pools, the stability pool itself, the
/// treasury and the developers.
pub const HOLDER_SHARE: i128 = 3_500;

pub const LP_SHARE: i128 = 3_000;

pub const STAB_SHARE: i128 = 2_000;

pub const TREASURY_SHARE: i128 = 1_000;

pub const DEV_SHARE: i128 = 500;

/// A partner's share where the partner registry names none.
pub const DEFAULT_PARTNER_SHARE: i128 = 5_000;

/// What an epoch brought.
#[derive(Clone, Copy, PartialEq, Eq, Structural, Debug)]
pub struct EpochData {
    pub epoch_id: u64,
    pub start_time: u64,
    pub end_time: u64,
    pub total_revenue: i128,
    /// What went to partners.
    pub partner_revenue: i128,
    /// What was left for the protocol.
    pub protocol_revenue: i128,
    /// All deposits of the stability pool when the epoch closed.
    pub staker_snapshot: i128,
    pub per_token_revenue: i128,
    pub finalized: bool,
}

#[derive(Clone, Copy, PartialEq, Eq, Structural, Debug)]
pub struct RevenueReceived {
    pub sender: Address,
    pub source: Symbol,
    pub token: Address,
    pub amount: i128,
    pub epoch: u64,
}

#[derive(Clone, Copy, PartialEq, Eq, Structural, Debug)]
pub struct EpochClosed {
    pub epoch: u64,
    pub total_revenue: i128,
}

#[derive(Clone, Copy, PartialEq, Eq, Structural, Debug)]
pub struct EpochOpened {
    pub epoch: u64,
}

#[derive(Clone, Copy, PartialEq, Eq, Structural, Debug)]
pub struct RevenueClaimed {
    pub claimer: Address,
    pub total: i128,
}

#[derive(Clone, Copy, PartialEq, Eq, Structural, Debug)]
pub struct PartnerRevenueForwarded {
    pub partner_id: u32,
    pub epoch: u64,
    pub partner_cut: i128,
    pub source: Symbol,
}

/// What a call does outside the contract, in the order in which it does it.
#[derive(Clone, Copy, PartialEq, Eq, Structural, Debug)]
pub enum Effect {
    /// The address must have authorised the call.
    RequireAuth(Address),
    /// Tokens change hands.
    Transfer { token: Address, from: Address, to: Address, amount: i128 },
    /// The partner registry books what a partner may claim.
    CreditPartnerRevenue {
        registry: Address,
        caller: Address,
        partner_id: u32,
        amount: i128,
        epoch: u64,
    },
    /// The contract's code is replaced.
    UpdateWasm(WasmHash),
    RevenueReceived(RevenueReceived),
    EpochClosed(EpochClosed),
    EpochOpened(EpochOpened),
    RevenueClaimed(RevenueClaimed),
    PartnerRevenueForwarded(PartnerRevenueForwarded),
}

/// The epochs and what they brought.
pub struct EarningsDistributor {
    pub admin: Option<Address>,
    pub treasury: Option<Address>,
    pub dev_fund: Option<Address>,
    pub stab_pool: Option<Address>,
    pub dao: Option<Address>,
    pub partner_reg: Option<Address>,
    pub lp_count: u32,
    pub current_epoch: u64,
    pub epochs: Table<u64, EpochData>,
    /// What the protocol got in each token.
    pub epoch_revenue: Table<(u64, Address), i128>,
    pub epoch_tokens: Table<u64, Vec<Address>>,
    /// What each partner got.
    pub partner_revenue: Table<(u64, u32), i128>,
    pub claimed: Table<(Address, u64), bool>,
    /// The liquidity pools that share in the revenue.
    pub lps: Table<u32, Address>,
}

impl View for EarningsDistributor {
    type V = EarningsState;

    open spec fn view(&self) -> EarningsState {
        EarningsState {
            admin: self.admin,
            treasury: self.treasury,
            dev_fund: self.dev_fund,
            stab_pool: self.stab_pool,
            dao: self.dao,
            partner_reg: self.partner_reg,
            lp_count: self.lp_count,
            current_epoch: self.current_epoch,
            epochs: self.epochs@,
            epoch_revenue: self.epoch_revenue@,
            epoch_tokens: table::views(self.epoch_tokens@),
            partner_revenue: self.partner_revenue@,
            claimed: self.claimed@,
            lps: self.lps@,
        }
    }
}

/// A part of an amount.
fn part(amount: i128, share: i128) -> (r: Result<i128, Error>)
    ensures
        arith::fits(amount * share) ==> r == Ok::<i128, Error>(
            model::part(amount as int, share as int) as i128,
        ) && arith::fits(model::part(amount as int, share as int)),
        !arith::fits(amount * share) ==> r == Err::<i128, Error>(Error::Arithmetic),
{
    arith::times_over(amount, share, PRECISION)
}

/// Pays, if there is anything to pay.
fn pay(effects: &mut Vec<Effect>, token: Address, from: Address, to: Address, amount: i128)
    ensures
        final(effects)@ == old(effects)@ + model::payment(token, from, to, amount as int),
{
    if amount > 0 {
        effects.push(Effect::Transfer { token, from, to, amount });
    }
}

impl EarningsDistributor {
    /// The contract before it is set up.
    pub fn new() -> (r: EarningsDistributor)
        ensures
            r@ == EarningsState::blank(),
    {
        let r = EarningsDistributor {
            admin: None,
            treasury: None,
            dev_fund: None,
            stab_pool: None,
            dao: None,
            partner_reg: None,
            lp_count: 0,
            current_epoch: 0,
            epochs: Table::new(),
            epoch_revenue: Table::new(),
            epoch_tokens: Table::new(),
            partner_revenue: Table::new(),
            claimed: Table::new(),
            lps: Table::new(),
        };
        assert(r@ =~= EarningsState::blank());
        r
    }

    /// Sets up the contract and opens the first epoch. Once.
    pub fn initialize(
        &mut self,
        env: &Context,
        admin: Address,
        treasury: Address,
        dev_fund: Address,
        stab_pool: Address,
        dao: Address,
        partner_reg: Address,
    ) -> (r: Result<Vec<Effect>, Error>)
        ensures
            crate::error::agrees(
                r,
                old(self)@,
                final(self)@,
                old(self)@.initialize(
                    *env,
                    admin,
                    treasury,
                    dev_fund,
                    stab_pool,
                    dao,
                    partner_reg,
                ),
            ),
    {
        if self.admin.is_some() {
            return Err(Error::AlreadyInitialised);
        }
        if env.timestamp > u64::MAX - EPOCH_DURATION {
            return Err(Error::Arithmetic);
        }
        self.admin = Some(admin);
        self.treasury = Some(treasury);
        self.dev_fund = Some(dev_fund);
        self.stab_pool = Some(stab_pool);
        self.dao = Some(dao);
        self.partner_reg = Some(partner_reg);
        self.lp_count = 0;
        self.current_epoch = 0;
        self.epochs.insert(0, open_epoch(0, env.timestamp));
        Ok(vec![Effect::RequireAuth(admin)])
    }

    /// Lets one more liquidity pool share in the revenue.
    pub fn register_lp(&mut self, admin: Address, lp: Address) -> (r: Result<Vec<Effect>, Error>)
        ensures
            crate::error::agrees(r, old(self)@, final(self)@, old(self)@.register_lp(admin, lp)),
    {
        self._require_admin(admin)?;
        let count: u32 = self.lp_count;
        if count == u32::MAX {
            return Err(Error::Arithmetic);
        }
        self.lps.insert(count, lp);
        self.lp_count = count + 1;
        Ok(vec![Effect::RequireAuth(admin)])
    }

    /// Takes revenue in. A `partner_id` of zero leaves it all to the
    /// protocol; else `registered_share` is what the partner registry says of
    /// the partner's share. The epoch is closed where its time is over;
    /// `total_deposits` is what the stability pool holds then.
    pub fn receive_revenue(
        &mut self,
        env: &Context,
        sender: Address,
        token: Address,
        amount: i128,
        source: Symbol,
        partner_id: u32,
        registered_share: i128,
        total_deposits: i128,
    ) -> (r: Result<Vec<Effect>, Error>)
        ensures
            crate::error::agrees(
                r,
                old(self)@,
                final(self)@,
                old(self)@.receive_revenue(
                    *env,
                    sender,
                    token,
                    amount,
                    source,
                    partner_id,
                    registered_share,
                    total_deposits,
                ),
            ),
    {
        broadcast use table::lemma_views_insert;
        broadcast use table::lemma_views_remove;

        if amount <= 0 {
            return Err(Error::AmountNotPositive);
        }
        let epoch: u64 = self.current_epoch;
        let mut ep: EpochData = match self.epochs.get(&epoch) {
            Some(e) => *e,
            None => return Err(Error::NotInitialised),
        };
        let mut effects = vec![
            Effect::RequireAuth(sender),
            Effect::Transfer { token, from: sender, to: env.contract, amount },
        ];
        let mut cut: i128 = 0;
        let mut protocol_amount: i128 = amount;
        if partner_id > 0 {
            let share: i128 = self._get_partner_share(registered_share);
            cut = part(amount, share)?;
            protocol_amount = arith::minus(amount, cut)?;
        }
        let mut partner_total: i128 = 0;
        if cut > 0 {
            let registry: Address = match self.partner_reg {
                Some(a) => a,
                None => return Err(Error::NotInitialised),
            };
            let before: i128 = self.get_partner_epoch_revenue(epoch, partner_id);
            partner_total = arith::plus(before, cut)?;
            ep.partner_revenue = arith::plus(ep.partner_revenue, cut)?;
            effects.push(
                Effect::Transfer { token, from: env.contract, to: registry, amount: cut },
            );
            effects.push(
                Effect::CreditPartnerRevenue {
                    registry,
                    caller: env.contract,
                    partner_id,
                    amount: cut,
                    epoch,
                },
            );
            effects.push(
                Effect::PartnerRevenueForwarded(
                    PartnerRevenueForwarded { partner_id, epoch, partner_cut: cut, source },
                ),
            );
        }
        ep.total_revenue = arith::plus(ep.total_revenue, amount)?;
        ep.protocol_revenue = arith::plus(ep.protocol_revenue, protocol_amount)?;
        let before: i128 = self.get_epoch_revenue(epoch, token);
        let token_total: i128 = arith::plus(before, protocol_amount)?;
        effects.push(
            Effect::RevenueReceived(RevenueReceived { sender, source, token, amount, epoch }),
        );
        let mut tokens: Vec<Address> = self.get_epoch_tokens(epoch);
        add_token(&mut tokens, token);
        let ghost booked = self@.booked(token, amount as int, partner_id, cut as int);
        let closing: bool = env.timestamp >= ep.end_time;
        if closing {
            // The closing may be refused, so it is worked out before anything
            // is stored.
            let planned = self.payments(env, &tokens, Some((token, token_total)));
            proof {
                let with = EarningsState {
                    epoch_revenue: self@.epoch_revenue.insert((epoch, token), token_total),
                    ..self@
                };
                model::lemma_same_payments(with, booked, *env, tokens@, tokens@.len());
            }
            let mut more = planned?;
            if epoch == u64::MAX || env.timestamp > u64::MAX - EPOCH_DURATION {
                return Err(Error::Arithmetic);
            }
            effects.append(&mut more);
        }
        if cut > 0 {
            self.partner_revenue.insert((epoch, partner_id), partner_total);
        }
        self.epoch_revenue.insert((epoch, token), token_total);
        self.epoch_tokens.insert(epoch, tokens);
        self.epochs.insert(epoch, ep);
        proof {
            assert(self@ =~= booked);
        }
        if closing {
            self.turn_epoch(env, ep, total_deposits, &mut effects);
        }
        Ok(effects)
    }

    /// Closes the epoch once its time is over. `total_deposits` is what the
    /// stability pool holds.
    pub fn finalize_epoch(&mut self, env: &Context, total_deposits: i128) -> (r: Result<
        (u64, Vec<Effect>),
        Error,
    >)
        ensures
            crate::error::agrees_on(
                r,
                old(self)@,
                final(self)@,
                old(self)@.finalize_epoch(*env, total_deposits),
            ),
    {
        let epoch: u64 = self.current_epoch;
        let ep: EpochData = match self.epochs.get(&epoch) {
            Some(e) => *e,
            None => return Err(Error::NotInitialised),
        };
        if env.timestamp < ep.end_time {
            return Err(Error::EpochNotComplete);
        }
        if ep.finalized {
            return Err(Error::EpochAlreadyFinalized);
        }
        let tokens: Vec<Address> = self.get_epoch_tokens(epoch);
        let mut effects = self.payments(env, &tokens, None)?;
        if epoch == u64::MAX || env.timestamp > u64::MAX - EPOCH_DURATION {
            return Err(Error::Arithmetic);
        }
        self.turn_epoch(env, ep, total_deposits, &mut effects);
        Ok((epoch, effects))
    }

    /// The payments of what an epoch brought. `newest` is what one token
    /// brought where that is not stored yet.
    fn payments(&self, env: &Context, tokens: &Vec<Address>, newest: Option<(Address, i128)>) -> (r:
        Result<Vec<Effect>, Error>)
        ensures
            ({
                let s = EarningsState {
                    epoch_revenue: match newest {
                        Some((token, amount)) => self@.epoch_revenue.insert(
                            (self@.current_epoch, token),
                            amount,
                        ),
                        None => self@.epoch_revenue,
                    },
                    ..self@
                };
                if self@.stab_pool is None || self@.treasury is None || self@.dev_fund is None {
                    r == Err::<Vec<Effect>, Error>(Error::NotInitialised)
                } else {
                    match s.payments(*env, tokens@, tokens@.len()) {
                        Err(e) => r == Err::<Vec<Effect>, Error>(e),
                        Ok(effects) => r matches Ok(v) && v@ == effects,
                    }
                }
            }),
    {
        let (treasury, dev, stab) = match (self.treasury, self.dev_fund, self.stab_pool) {
            (Some(treasury), Some(dev), Some(stab)) => (treasury, dev, stab),
            _ => return Err(Error::NotInitialised),
        };
        let ghost s = EarningsState {
            epoch_revenue: match newest {
                Some((token, amount)) => self@.epoch_revenue.insert(
                    (self@.current_epoch, token),
                    amount,
                ),
                None => self@.epoch_revenue,
            },
            ..self@
        };
        let mut effects: Vec<Effect> = Vec::new();
        let mut i: usize = 0;
        while i < tokens.len()
            invariant
                i <= tokens@.len(),
                self.treasury == Some(treasury),
                self.dev_fund == Some(dev),
                self.stab_pool == Some(stab),
                s == (EarningsState {
                    epoch_revenue: match newest {
                        Some((token, amount)) => self@.epoch_revenue.insert(
                            (self@.current_epoch, token),
                            amount,
                        ),
                        None => self@.epoch_revenue,
                    },
                    ..self@
                }),
                s.payments(*env, tokens@, i as nat) == Ok::<Seq<Effect>, Error>(effects@),
            decreases tokens@.len() - i,
        {
            let token: Address = tokens[i];
            let stored: i128 = self.get_epoch_revenue(self.current_epoch, token);
            let amount: i128 = match newest {
                Some((t, a)) => if t == token {
                    a
                } else {
                    stored
                },
                None => stored,
            };
            proof {
                assert(amount == model::amount_at(s.epoch_revenue, (s.current_epoch, token)));
                model::lemma_same_amount_payments(self@, s, *env, token, amount as int);
                if s.token_payments(*env, token) is Err {
                    lemma_payments_stop(s, *env, tokens@, (i + 1) as nat, tokens@.len());
                }
            }
            self.pay_token(env, token, amount, treasury, dev, stab, &mut effects)?;
            i = i + 1;
        }
        Ok(effects)
    }

    /// Pays what one token brought.
    fn pay_token(
        &self,
        env: &Context,
        token: Address,
        amount: i128,
        treasury: Address,
        dev: Address,
        stab: Address,
        effects: &mut Vec<Effect>,
    ) -> (r: Result<(), Error>)
        requires
            self@.treasury == Some(treasury),
            self@.dev_fund == Some(dev),
            self@.stab_pool == Some(stab),
        ensures
            match self@.amount_payments(*env, token, amount as int) {
                Err(e) => r == Err::<(), Error>(e),
                Ok(payments) => r is Ok && final(effects)@ == old(effects)@ + payments,
            },
    {
        if amount == 0 {
            return Ok(());
        }
        let treasury_amt: i128 = part(amount, TREASURY_SHARE)?;
        let dev_amt: i128 = part(amount, DEV_SHARE)?;
        let stab_amt: i128 = part(amount, STAB_SHARE)?;
        let lp_total: i128 = part(amount, LP_SHARE)?;
        pay(effects, token, env.contract, treasury, treasury_amt);
        pay(effects, token, env.contract, dev, dev_amt);
        pay(effects, token, env.contract, stab, stab_amt);
        if self.lp_count > 0 {
            proof {
                arith::lemma_quot_range(lp_total as int, self.lp_count as int);
            }
            let per_lp: i128 = arith::over(lp_total, self.lp_count as i128)?;
            self.pay_pools(env, token, per_lp, effects)?;
        }
        Ok(())
    }

    /// Pays each liquidity pool its part.
    fn pay_pools(&self, env: &Context, token: Address, each: i128, effects: &mut Vec<Effect>) -> (r:
        Result<(), Error>)
        ensures
            match self@.pool_payments(*env, token, each as int, self@.lp_count as nat) {
                Err(e) => r == Err::<(), Error>(e),
                Ok(payments) => r is Ok && final(effects)@ == old(effects)@ + payments,
            },
    {
        let mut j: u32 = 0;
        while j < self.lp_count
            invariant
                j <= self.lp_count,
                match self@.pool_payments(*env, token, each as int, j as nat) {
                    Ok(payments) => effects@ =~= old(effects)@ + payments,
                    Err(_) => false,
                },
            decreases self.lp_count - j,
        {
            let lp: Address = match self.lps.get(&j) {
                Some(a) => *a,
                None => {
                    proof {
                        lemma_pool_payments_stop(
                            self@,
                            *env,
                            token,
                            each as int,
                            (j + 1) as nat,
                            self.lp_count as nat,
                        );
                    }
                    return Err(Error::NotInitialised);
                },
            };
            pay(effects, token, env.contract, lp, each);
            j = j + 1;
        }
        Ok(())
    }

    /// Marks the epoch closed and opens the next one.
    fn turn_epoch(
        &mut self,
        env: &Context,
        closing: EpochData,
        total_deposits: i128,
        effects: &mut Vec<Effect>,
    )
        requires
            old(self)@.epochs[old(self)@.current_epoch] == closing,
            old(self)@.current_epoch < u64::MAX,
            env.timestamp + EPOCH_DURATION <= u64::MAX,
        ensures
            final(self)@ == (EarningsState {
                epochs: old(self)@.epochs.insert(
                    old(self)@.current_epoch,
                    (EpochData { staker_snapshot: total_deposits, finalized: true, ..closing }),
                ).insert(
                    (old(self)@.current_epoch + 1) as u64,
                    EpochData::opened((old(self)@.current_epoch + 1) as u64, env.timestamp),
                ),
                current_epoch: (old(self)@.current_epoch + 1) as u64,
                ..old(self)@
            }),
            final(effects)@ == old(effects)@ + seq![
                Effect::EpochClosed(
                    (EpochClosed {
                        epoch: old(self)@.current_epoch,
                        total_revenue: closing.total_revenue,
                    }),
                ),
                Effect::EpochOpened(
                    (EpochOpened { epoch: (old(self)@.current_epoch + 1) as u64 }),
                ),
            ],
    {
        let epoch: u64 = self.current_epoch;
        let mut ep = closing;
        ep.staker_snapshot = total_deposits;
        ep.finalized = true;
        let next: u64 = epoch + 1;
        self.epochs.insert(epoch, ep);
        self.epochs.insert(next, open_epoch(next, env.timestamp));
        self.current_epoch = next;
        effects.push(Effect::EpochClosed(EpochClosed { epoch, total_revenue: ep.total_revenue }));
        effects.push(Effect::EpochOpened(EpochOpened { epoch: next }));
    }

    /// Claims what a depositor of the stability pool gets of the epochs that
    /// are closed. `deposit` is what the pool says that the claimer holds.
    pub fn claim(&mut self, claimer: Address, epochs: &Vec<u64>, deposit: i128) -> (r: Result<
        (i128, Vec<Effect>),
        Error,
    >)
        ensures
            crate::error::agrees_on(
                r,
                old(self)@,
                final(self)@,
                old(self)@.claim(claimer, epochs@, deposit),
            ),
    {
        if self.stab_pool.is_none() {
            return Err(Error::NotInitialised);
        }
        if deposit <= 0 {
            return Err(Error::NoStabilityDeposit);
        }
        let mut newly: Vec<u64> = Vec::new();
        let mut total: i128 = 0;
        let mut i: usize = 0;
        while i < epochs.len()
            invariant
                i <= epochs@.len(),
                *self == *old(self),
                self.stab_pool is Some,
                deposit > 0,
                self@.claims(claimer, deposit as int, epochs@, i as nat) == Ok::<
                    (Seq<u64>, int),
                    Error,
                >((newly@, total as int)),
            decreases epochs@.len() - i,
        {
            let epoch: u64 = epochs[i];
            proof {
                if self@.claims(claimer, deposit as int, epochs@, (i + 1) as nat) is Err {
                    lemma_claims_stop(
                        self@,
                        claimer,
                        deposit as int,
                        epochs@,
                        (i + 1) as nat,
                        epochs@.len(),
                    );
                }
            }
            if !self.has_claimed(claimer, epoch) && !holds(&newly, epoch) {
                match self.epochs.get(&epoch) {
                    None => {},
                    Some(ep) => {
                        if ep.finalized && ep.staker_snapshot != 0 {
                            let share: i128 = self.share(epoch, ep, deposit)?;
                            if share > 0 {
                                total = arith::plus(total, share)?;
                                newly.push(epoch);
                            }
                        }
                    },
                }
            }
            i = i + 1;
        }
        let mut k: usize = 0;
        proof {
            assert(newly@.take(0) =~= Seq::<u64>::empty());
        }
        while k < newly.len()
            invariant
                k <= newly@.len(),
                self@ == (EarningsState {
                    claimed: model::with_claims(
                        old(self)@.claimed,
                        claimer,
                        newly@.take(k as int),
                    ),
                    ..old(self)@
                }),
            decreases newly@.len() - k,
        {
            proof {
                assert(newly@.take(k + 1).drop_last() =~= newly@.take(k as int));
            }
            self.claimed.insert((claimer, newly[k]), true);
            k = k + 1;
        }
        proof {
            assert(newly@.take(k as int) =~= newly@);
        }
        let mut effects = vec![Effect::RequireAuth(claimer)];
        if total > 0 {
            effects.push(Effect::RevenueClaimed(RevenueClaimed { claimer, total }));
        }
        Ok((total, effects))
    }

    /// What a depositor gets of an epoch.
    fn share(&self, epoch: u64, ep: &EpochData, deposit: i128) -> (r: Result<i128, Error>)
        requires
            self@.claimable(epoch),
            self@.epochs[epoch] == *ep,
        ensures
            self@.share_defined(epoch, deposit as int) ==> r == Ok::<i128, Error>(
                self@.share_of(epoch, deposit as int) as i128,
            ) && arith::fits(self@.share_of(epoch, deposit as int)),
            !self@.share_defined(epoch, deposit as int) ==> r == Err::<i128, Error>(
                Error::Arithmetic,
            ),
    {
        let bucket: i128 = arith::times(HOLDER_SHARE, ep.protocol_revenue)?;
        let numerator: i128 = arith::times(bucket, deposit)?;
        let denominator: i128 = arith::times(ep.staker_snapshot, PRECISION)?;
        proof {
            lemma_quot_small(numerator as int, denominator as int);
        }
        arith::over(numerator, denominator)
    }

    /// The epoch.
    pub fn get_epoch(&self, epoch_id: u64) -> (r: Option<EpochData>)
        ensures
            r == (if self@.epochs.contains_key(epoch_id) {
                Some(self@.epochs[epoch_id])
            } else {
                None
            }),
    {
        match self.epochs.get(&epoch_id) {
            Some(e) => Some(*e),
            None => None,
        }
    }

    /// Whether the time of the open epoch is over, so that revenue closes it.
    pub fn is_epoch_over(&self, env: &Context) -> (r: bool)
        ensures
            r == (self@.epochs.contains_key(self@.current_epoch) && env.timestamp
                >= self@.epochs[self@.current_epoch].end_time),
    {
        match self.epochs.get(&self.current_epoch) {
            Some(e) => env.timestamp >= e.end_time,
            None => false,
        }
    }

    /// The number of the epoch that is open.
    pub fn get_current_epoch(&self) -> (r: u64)
        ensures
            r == self@.current_epoch,
    {
        self.current_epoch
    }

    /// What the protocol got in a token.
    pub fn get_epoch_revenue(&self, epoch_id: u64, token: Address) -> (r: i128)
        ensures
            r == model::amount_at(self@.epoch_revenue, (epoch_id, token)),
    {
        match self.epoch_revenue.get(&(epoch_id, token)) {
            Some(a) => *a,
            None => 0,
        }
    }

    /// What a partner got.
    pub fn get_partner_epoch_revenue(&self, epoch_id: u64, partner_id: u32) -> (r: i128)
        ensures
            r == model::amount_at(self@.partner_revenue, (epoch_id, partner_id)),
    {
        match self.partner_revenue.get(&(epoch_id, partner_id)) {
            Some(a) => *a,
            None => 0,
        }
    }

    /// Whether a claimer was paid for an epoch.
    pub fn has_claimed(&self, claimer: Address, epoch_id: u64) -> (r: bool)
        ensures
            r == model::is_claimed(self@.claimed, claimer, epoch_id),
    {
        match self.claimed.get(&(claimer, epoch_id)) {
            Some(b) => *b,
            None => false,
        }
    }

    /// The tokens in which an epoch brought revenue.
    pub fn get_epoch_tokens(&self, epoch_id: u64) -> (r: Vec<Address>)
        ensures
            r@ == model::tokens_of(self@.epoch_tokens, epoch_id),
    {
        match self.epoch_tokens.get(&epoch_id) {
            None => Vec::new(),
            Some(tokens) => table::copied(tokens),
        }
    }

    /// Replaces the contract's code; what it stores stays. The DAO that is
    /// stored must authorise this.
    pub fn upgrade(&mut self, _dao: Address, new_wasm_hash: WasmHash) -> (r: Result<
        Vec<Effect>,
        Error,
    >)
        ensures
            crate::error::agrees(r, old(self)@, final(self)@, old(self)@.upgrade(new_wasm_hash)),
    {
        match self.dao {
            None => Err(Error::NotInitialised),
            Some(dao) => Ok(
                vec![Effect::RequireAuth(dao), Effect::UpdateWasm(new_wasm_hash)],
            ),
        }
    }

    /// The partner's share.
    fn _get_partner_share(&self, registered_share: i128) -> (r: i128)
        ensures
            r == self@.partner_share(registered_share),
    {
        match self.partner_reg {
            None => DEFAULT_PARTNER_SHARE,
            Some(_) => if registered_share > 0 {
                registered_share
            } else {
                DEFAULT_PARTNER_SHARE
            },
        }
    }

    fn _require_admin(&self, caller: Address) -> (r: Result<(), Error>)
        ensures
            r == match self@.admin_error(caller) {
                None => Ok::<(), Error>(()),
                Some(e) => Err(e),
            },
    {
        match self.admin {
            None => Err(Error::NotInitialised),
            Some(admin) => if caller == admin {
                Ok(())
            } else {
                Err(Error::AdminOnly)
            },
        }
    }
}

/// An epoch that starts now.
fn open_epoch(epoch_id: u64, now: u64) -> (r: EpochData)
    requires
        now + EPOCH_DURATION <= u64::MAX,
    ensures
        r == EpochData::opened(epoch_id, now),
{
    EpochData {
        epoch_id,
        start_time: now,
        end_time: now + EPOCH_DURATION,
        total_revenue: 0,
        partner_revenue: 0,
        protocol_revenue: 0,
        staker_snapshot: 0,
        per_token_revenue: 0,
        finalized: false,
    }
}

/// Puts a token on a list, once.
fn add_token(tokens: &mut Vec<Address>, token: Address)
    ensures
        final(tokens)@ == model::with_token(old(tokens)@, token),
{
    let mut i: usize = 0;
    while i < tokens.len()
        invariant
            i <= tokens@.len(),
            *tokens == *old(tokens),
            forall|j: int| 0 <= j < i ==> tokens@[j] != token,
        decreases tokens@.len() - i,
    {
        if tokens[i] == token {
            return;
        }
        i = i + 1;
    }
    tokens.push(token);
}

/// Whether an epoch is on a list.
fn holds(epochs: &Vec<u64>, epoch: u64) -> (r: bool)
    ensures
        r == epochs@.contains(epoch),
{
    let mut i: usize = 0;
    while i < epochs.len()
        invariant
            i <= epochs@.len(),
            forall|j: int| 0 <= j < i ==> epochs@[j] != epoch,
        decreases epochs@.len() - i,
    {
        if epochs[i] == epoch {
            return true;
        }
        i = i + 1;
    }
    false
}

/// A quotient by a multiple of many is representable where the dividend is.
pub proof fn lemma_quot_small(a: int, b: int)
    requires
        arith::fits(a),
        b >= 2 || b <= -2,
    ensures
        arith::fits(arith::quot(a, b)),
{
    let n = if a >= 0 {
        a
    } else {
        -a
    };
    let d = if b >= 0 {
        b
    } else {
        -b
    };
    assert(0 <= n / d <= n / 2) by (nonlinear_arith)
        requires
            n >= 0,
            d >= 2,
    ;
}

/// Payments that are refused for some tokens are refused for more.
proof fn lemma_payments_stop(
    s: EarningsState,
    env: Context,
    tokens: Seq<Address>,
    n: nat,
    m: nat,
)
    requires
        n <= m,
        s.payments(env, tokens, n) is Err,
    ensures
        s.payments(env, tokens, m) == s.payments(env, tokens, n),
    decreases m,
{
    if n < m {
        lemma_payments_stop(s, env, tokens, n, (m - 1) as nat);
    }
}

proof fn lemma_pool_payments_stop(
    s: EarningsState,
    env: Context,
    token: Address,
    each: int,
    n: nat,
    m: nat,
)
    requires
        n <= m,
        s.pool_payments(env, token, each, n) is Err,
    ensures
        s.pool_payments(env, token, each, m) == s.pool_payments(env, token, each, n),
    decreases m,
{
    if n < m {
        lemma_pool_payments_stop(s, env, token, each, n, (m - 1) as nat);
    }
}

/// A claim that is refused for some epochs is refused for more.
proof fn lemma_claims_stop(
    s: EarningsState,
    claimer: Address,
    deposit: int,
    epochs: Seq<u64>,
    n: nat,
    m: nat,
)
    requires
        n <= m,
        s.claims(claimer, deposit, epochs, n) is Err,
    ensures
        s.claims(claimer, deposit, epochs, m) == s.claims(claimer, deposit, epochs, n),
    decreases m,
{
    if n < m {
        lemma_claims_stop(s, claimer, deposit, epochs, n, (m - 1) as nat);
    }
}

} // verus!
