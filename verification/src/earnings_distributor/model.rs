//! What each call on the earnings distributor does to it.
use crate::arith;
use crate::earnings_distributor::{
    Effect, EpochClosed, EpochData, EpochOpened, PartnerRevenueForwarded, RevenueClaimed,
    RevenueReceived, DEFAULT_PARTNER_SHARE, DEV_SHARE, EPOCH_DURATION, HOLDER_SHARE, LP_SHARE,
    PRECISION, STAB_SHARE, TREASURY_SHARE,
};
use crate::error;
use crate::error::Error;
use crate::sums;
use crate::types::{Address, Context, Symbol, WasmHash};
use vstd::prelude::*;

verus! {

/// The state of the contract.
#[verifier::ext_equal]
pub struct EarningsState {
    pub admin: Option<Address>,
    pub treasury: Option<Address>,
    pub dev_fund: Option<Address>,
    pub stab_pool: Option<Address>,
    pub dao: Option<Address>,
    pub partner_reg: Option<Address>,
    pub lp_count: u32,
    pub current_epoch: u64,
    pub epochs: Map<u64, EpochData>,
    pub epoch_revenue: Map<(u64, Address), i128>,
    pub epoch_tokens: Map<u64, Seq<Address>>,
    pub partner_revenue: Map<(u64, u32), i128>,
    pub claimed: Map<(Address, u64), bool>,
    pub lps: Map<u32, Address>,
}

impl EpochData {
    /// An epoch that starts now.
    pub open spec fn opened(epoch_id: u64, now: u64) -> EpochData {
        EpochData {
            epoch_id,
            start_time: now,
            end_time: (now + EPOCH_DURATION) as u64,
            total_revenue: 0,
            partner_revenue: 0,
            protocol_revenue: 0,
            staker_snapshot: 0,
            per_token_revenue: 0,
            finalized: false,
        }
    }
}

/// The amount under a key; zero where there is none.
pub open spec fn amount_at<K>(amounts: Map<K, i128>, key: K) -> i128 {
    if amounts.contains_key(key) {
        amounts[key]
    } else {
        0
    }
}

/// The tokens of an epoch; none where there is no list.
pub open spec fn tokens_of(lists: Map<u64, Seq<Address>>, epoch: u64) -> Seq<Address> {
    if lists.contains_key(epoch) {
        lists[epoch]
    } else {
        Seq::empty()
    }
}

/// A list with a token in it, once.
pub open spec fn with_token(tokens: Seq<Address>, token: Address) -> Seq<Address> {
    if tokens.contains(token) {
        tokens
    } else {
        tokens.push(token)
    }
}

/// A part of an amount.
pub open spec fn part(amount: int, share: int) -> int {
    arith::quot(amount * share, PRECISION as int)
}

/// The effects that pay `amount` of `token` to `to`, if there is anything to
/// pay.
pub open spec fn payment(token: Address, from: Address, to: Address, amount: int) -> Seq<Effect> {
    if amount > 0 {
        seq![Effect::Transfer { token, from, to, amount: amount as i128 }]
    } else {
        Seq::empty()
    }
}

/// The claims with those of more epochs.
pub open spec fn with_claims(
    claimed: Map<(Address, u64), bool>,
    claimer: Address,
    epochs: Seq<u64>,
) -> Map<(Address, u64), bool>
    decreases epochs.len(),
{
    if epochs.len() == 0 {
        claimed
    } else {
        with_claims(claimed, claimer, epochs.drop_last()).insert((claimer, epochs.last()), true)
    }
}

/// A claimer was paid for an epoch.
pub open spec fn is_claimed(
    claimed: Map<(Address, u64), bool>,
    claimer: Address,
    epoch: u64,
) -> bool {
    claimed.contains_key((claimer, epoch)) && claimed[(claimer, epoch)]
}

impl EarningsState {
    /// The contract before it is set up.
    pub open spec fn blank() -> EarningsState {
        EarningsState {
            admin: None,
            treasury: None,
            dev_fund: None,
            stab_pool: None,
            dao: None,
            partner_reg: None,
            lp_count: 0,
            current_epoch: 0,
            epochs: Map::empty(),
            epoch_revenue: Map::empty(),
            epoch_tokens: Map::empty(),
            partner_revenue: Map::empty(),
            claimed: Map::empty(),
            lps: Map::empty(),
        }
    }

    pub open spec fn admin_error(self, caller: Address) -> Option<Error> {
        match self.admin {
            None => Some(Error::NotInitialised),
            Some(admin) => if caller == admin {
                None
            } else {
                Some(Error::AdminOnly)
            },
        }
    }

    pub open spec fn initialize(
        self,
        env: Context,
        admin: Address,
        treasury: Address,
        dev_fund: Address,
        stab_pool: Address,
        dao: Address,
        partner_reg: Address,
    ) -> Result<(Self, Seq<Effect>), Error> {
        if self.admin is Some {
            Err(Error::AlreadyInitialised)
        } else if env.timestamp + EPOCH_DURATION > u64::MAX {
            Err(Error::Arithmetic)
        } else {
            Ok(
                (
                    EarningsState {
                        admin: Some(admin),
                        treasury: Some(treasury),
                        dev_fund: Some(dev_fund),
                        stab_pool: Some(stab_pool),
                        dao: Some(dao),
                        partner_reg: Some(partner_reg),
                        lp_count: 0,
                        current_epoch: 0,
                        epochs: self.epochs.insert(0, EpochData::opened(0, env.timestamp)),
                        ..self
                    },
                    seq![Effect::RequireAuth(admin)],
                ),
            )
        }
    }

    pub open spec fn register_lp(self, admin: Address, lp: Address) -> Result<
        (Self, Seq<Effect>),
        Error,
    > {
        match self.admin_error(admin) {
            Some(e) => Err(e),
            None => if self.lp_count == u32::MAX {
                Err(Error::Arithmetic)
            } else {
                Ok(
                    (
                        EarningsState {
                            lps: self.lps.insert(self.lp_count, lp),
                            lp_count: (self.lp_count + 1) as u32,
                            ..self
                        },
                        seq![Effect::RequireAuth(admin)],
                    ),
                )
            },
        }
    }

    // ── Revenue ───────────────────────────────────────────────────

    /// The partner's share of what it brought: what the registry says, and
    /// the default where there is no registry or it names none.
    pub open spec fn partner_share(self, registered_share: i128) -> i128 {
        if self.partner_reg is Some && registered_share > 0 {
            registered_share
        } else {
            DEFAULT_PARTNER_SHARE
        }
    }

    /// What a partner gets of an amount.
    pub open spec fn partner_cut(self, amount: int, partner_id: u32, registered_share: i128) -> int {
        if partner_id > 0 {
            part(amount, self.partner_share(registered_share) as int)
        } else {
            0
        }
    }

    pub open spec fn cut_defined(
        self,
        amount: int,
        partner_id: u32,
        registered_share: i128,
    ) -> bool {
        partner_id > 0 ==> {
            &&& arith::fits(amount * self.partner_share(registered_share))
            &&& arith::fits(amount - self.partner_cut(amount, partner_id, registered_share))
        }
    }

    /// What is booked fits its type.
    pub open spec fn booking_defined(
        self,
        token: Address,
        amount: int,
        partner_id: u32,
        cut: int,
    ) -> bool {
        let epoch = self.current_epoch;
        let ep = self.epochs[epoch];
        &&& cut > 0 ==> arith::fits(amount_at(self.partner_revenue, (epoch, partner_id)) + cut)
        &&& cut > 0 ==> arith::fits(ep.partner_revenue + cut)
        &&& arith::fits(ep.total_revenue + amount)
        &&& arith::fits(ep.protocol_revenue + amount - cut)
        &&& arith::fits(amount_at(self.epoch_revenue, (epoch, token)) + amount - cut)
    }

    /// The state with revenue booked. A cut that is not positive is booked to
    /// no partner.
    pub open spec fn booked(self, token: Address, amount: int, partner_id: u32, cut: int) -> Self {
        let epoch = self.current_epoch;
        let ep = self.epochs[epoch];
        EarningsState {
            epochs: self.epochs.insert(
                epoch,
                EpochData {
                    total_revenue: (ep.total_revenue + amount) as i128,
                    partner_revenue: if cut > 0 {
                        (ep.partner_revenue + cut) as i128
                    } else {
                        ep.partner_revenue
                    },
                    protocol_revenue: (ep.protocol_revenue + amount - cut) as i128,
                    ..ep
                },
            ),
            partner_revenue: if cut > 0 {
                self.partner_revenue.insert(
                    (epoch, partner_id),
                    (amount_at(self.partner_revenue, (epoch, partner_id)) + cut) as i128,
                )
            } else {
                self.partner_revenue
            },
            epoch_revenue: self.epoch_revenue.insert(
                (epoch, token),
                (amount_at(self.epoch_revenue, (epoch, token)) + amount - cut) as i128,
            ),
            epoch_tokens: self.epoch_tokens.insert(
                epoch,
                with_token(tokens_of(self.epoch_tokens, epoch), token),
            ),
            ..self
        }
    }

    pub open spec fn receive_revenue(
        self,
        env: Context,
        sender: Address,
        token: Address,
        amount: i128,
        source: Symbol,
        partner_id: u32,
        registered_share: i128,
        total_deposits: i128,
    ) -> Result<(Self, Seq<Effect>), Error> {
        let epoch = self.current_epoch;
        let cut = self.partner_cut(amount as int, partner_id, registered_share);
        if amount <= 0 {
            Err(Error::AmountNotPositive)
        } else if !self.epochs.contains_key(epoch) {
            Err(Error::NotInitialised)
        } else if !self.cut_defined(amount as int, partner_id, registered_share) {
            Err(Error::Arithmetic)
        } else if cut > 0 && self.partner_reg is None {
            Err(Error::NotInitialised)
        } else if !self.booking_defined(token, amount as int, partner_id, cut) {
            Err(Error::Arithmetic)
        } else {
            let booked = self.booked(token, amount as int, partner_id, cut);
            let effects = seq![
                Effect::RequireAuth(sender),
                Effect::Transfer { token, from: sender, to: env.contract, amount },
            ] + (if cut > 0 {
                seq![
                    Effect::Transfer {
                        token,
                        from: env.contract,
                        to: self.partner_reg->0,
                        amount: cut as i128,
                    },
                    Effect::CreditPartnerRevenue {
                        registry: self.partner_reg->0,
                        caller: env.contract,
                        partner_id,
                        amount: cut as i128,
                        epoch,
                    },
                    Effect::PartnerRevenueForwarded(
                        PartnerRevenueForwarded {
                            partner_id,
                            epoch,
                            partner_cut: cut as i128,
                            source,
                        },
                    ),
                ]
            } else {
                Seq::empty()
            }) + seq![
                Effect::RevenueReceived(RevenueReceived { sender, source, token, amount, epoch }),
            ];
            if env.timestamp >= self.epochs[epoch].end_time {
                match booked.close(env, total_deposits) {
                    Err(e) => Err(e),
                    Ok((next, more)) => Ok((next, effects + more)),
                }
            } else {
                Ok((booked, effects))
            }
        }
    }

    // ── Epochs ────────────────────────────────────────────────────

    /// The payments to the first `n` pools.
    pub open spec fn pool_payments(self, env: Context, token: Address, each: int, n: nat) -> Result<
        Seq<Effect>,
        Error,
    >
        decreases n,
    {
        if n == 0 {
            Ok(Seq::empty())
        } else {
            let place = (n - 1) as u32;
            match self.pool_payments(env, token, each, (n - 1) as nat) {
                Err(e) => Err(e),
                Ok(before) => if !self.lps.contains_key(place) {
                    Err(Error::NotInitialised)
                } else {
                    Ok(before + payment(token, env.contract, self.lps[place], each))
                },
            }
        }
    }

    /// The parts of what one token brought fit their type.
    pub open spec fn parts_defined(amount: int) -> bool {
        &&& arith::fits(amount * TREASURY_SHARE)
        &&& arith::fits(amount * DEV_SHARE)
        &&& arith::fits(amount * STAB_SHARE)
        &&& arith::fits(amount * LP_SHARE)
    }

    /// The payments of an amount of one token: to the treasury, the
    /// developers, the stability pool and, in equal parts, the pools.
    pub open spec fn amount_payments(self, env: Context, token: Address, amount: int) -> Result<
        Seq<Effect>,
        Error,
    > {
        if amount == 0 {
            Ok(Seq::empty())
        } else if !EarningsState::parts_defined(amount) {
            Err(Error::Arithmetic)
        } else {
            let first = payment(
                token,
                env.contract,
                self.treasury->0,
                part(amount, TREASURY_SHARE as int),
            ) + payment(token, env.contract, self.dev_fund->0, part(amount, DEV_SHARE as int))
                + payment(token, env.contract, self.stab_pool->0, part(amount, STAB_SHARE as int));
            let each = arith::quot(part(amount, LP_SHARE as int), self.lp_count as int);
            match self.pool_payments(env, token, each, self.lp_count as nat) {
                Err(e) => Err(e),
                Ok(pools) => Ok(first + pools),
            }
        }
    }

    /// The payments of what one token brought.
    pub open spec fn token_payments(self, env: Context, token: Address) -> Result<Seq<Effect>, Error> {
        self.amount_payments(
            env,
            token,
            amount_at(self.epoch_revenue, (self.current_epoch, token)) as int,
        )
    }

    /// The payments of what the first `n` tokens brought.
    pub open spec fn payments(self, env: Context, tokens: Seq<Address>, n: nat) -> Result<
        Seq<Effect>,
        Error,
    >
        decreases n,
    {
        if n == 0 {
            Ok(Seq::empty())
        } else {
            match self.payments(env, tokens, (n - 1) as nat) {
                Err(e) => Err(e),
                Ok(before) => match self.token_payments(env, tokens[n - 1]) {
                    Err(e) => Err(e),
                    Ok(more) => Ok(before + more),
                },
            }
        }
    }

    /// Closes the epoch, pays out what it brought and opens the next one.
    pub open spec fn close(self, env: Context, total_deposits: i128) -> Result<
        (Self, Seq<Effect>),
        Error,
    > {
        let epoch = self.current_epoch;
        let ep = self.epochs[epoch];
        let tokens = tokens_of(self.epoch_tokens, epoch);
        if self.stab_pool is None || self.treasury is None || self.dev_fund is None {
            Err(Error::NotInitialised)
        } else {
            match self.payments(env, tokens, tokens.len()) {
                Err(e) => Err(e),
                Ok(payments) => if epoch == u64::MAX || env.timestamp + EPOCH_DURATION > u64::MAX {
                    Err(Error::Arithmetic)
                } else {
                    let next = (epoch + 1) as u64;
                    Ok(
                        (
                            EarningsState {
                                epochs: self.epochs.insert(
                                    epoch,
                                    EpochData {
                                        staker_snapshot: total_deposits,
                                        finalized: true,
                                        ..ep
                                    },
                                ).insert(next, EpochData::opened(next, env.timestamp)),
                                current_epoch: next,
                                ..self
                            },
                            payments + seq![
                                Effect::EpochClosed(
                                    EpochClosed { epoch, total_revenue: ep.total_revenue },
                                ),
                                Effect::EpochOpened(EpochOpened { epoch: next }),
                            ],
                        ),
                    )
                },
            }
        }
    }

    pub open spec fn finalize_epoch(self, env: Context, total_deposits: i128) -> Result<
        (Self, u64, Seq<Effect>),
        Error,
    > {
        let epoch = self.current_epoch;
        if !self.epochs.contains_key(epoch) {
            Err(Error::NotInitialised)
        } else if env.timestamp < self.epochs[epoch].end_time {
            Err(Error::EpochNotComplete)
        } else if self.epochs[epoch].finalized {
            Err(Error::EpochAlreadyFinalized)
        } else {
            match self.close(env, total_deposits) {
                Err(e) => Err(e),
                Ok((next, effects)) => Ok((next, epoch, effects)),
            }
        }
    }

    // ── Claims ────────────────────────────────────────────────────

    /// An epoch from which there is something to claim.
    pub open spec fn claimable(self, epoch: u64) -> bool {
        &&& self.epochs.contains_key(epoch)
        &&& self.epochs[epoch].finalized
        &&& self.epochs[epoch].staker_snapshot != 0
    }

    /// What a depositor gets of an epoch: of the part of its revenue that is
    /// for depositors, as much as of all deposits then.
    pub open spec fn share_of(self, epoch: u64, deposit: int) -> int {
        let ep = self.epochs[epoch];
        arith::quot(
            HOLDER_SHARE * ep.protocol_revenue * deposit,
            ep.staker_snapshot * PRECISION,
        )
    }

    pub open spec fn share_defined(self, epoch: u64, deposit: int) -> bool {
        let ep = self.epochs[epoch];
        &&& arith::fits(HOLDER_SHARE * ep.protocol_revenue)
        &&& arith::fits(HOLDER_SHARE * ep.protocol_revenue * deposit)
        &&& arith::fits(ep.staker_snapshot * PRECISION)
    }

    /// The epochs among the first `n` that are newly claimed, and what they
    /// bring in all.
    pub open spec fn claims(self, claimer: Address, deposit: int, epochs: Seq<u64>, n: nat) -> Result<
        (Seq<u64>, int),
        Error,
    >
        decreases n,
    {
        if n == 0 {
            Ok((Seq::empty(), 0))
        } else {
            let epoch = epochs[n - 1];
            match self.claims(claimer, deposit, epochs, (n - 1) as nat) {
                Err(e) => Err(e),
                Ok((newly, total)) => if is_claimed(self.claimed, claimer, epoch)
                    || newly.contains(epoch) || !self.claimable(epoch) {
                    Ok((newly, total))
                } else if !self.share_defined(epoch, deposit) {
                    Err(Error::Arithmetic)
                } else if self.share_of(epoch, deposit) <= 0 {
                    Ok((newly, total))
                } else if !arith::fits(total + self.share_of(epoch, deposit)) {
                    Err(Error::Arithmetic)
                } else {
                    Ok((newly.push(epoch), total + self.share_of(epoch, deposit)))
                },
            }
        }
    }

    pub open spec fn claim(self, claimer: Address, epochs: Seq<u64>, deposit: i128) -> Result<
        (Self, i128, Seq<Effect>),
        Error,
    > {
        if self.stab_pool is None {
            Err(Error::NotInitialised)
        } else if deposit <= 0 {
            Err(Error::NoStabilityDeposit)
        } else {
            match self.claims(claimer, deposit as int, epochs, epochs.len()) {
                Err(e) => Err(e),
                Ok((newly, total)) => Ok(
                    (
                        EarningsState {
                            claimed: with_claims(self.claimed, claimer, newly),
                            ..self
                        },
                        total as i128,
                        seq![Effect::RequireAuth(claimer)] + (if total > 0 {
                            seq![
                                Effect::RevenueClaimed(
                                    RevenueClaimed { claimer, total: total as i128 },
                                ),
                            ]
                        } else {
                            Seq::empty()
                        }),
                    ),
                ),
            }
        }
    }

    pub open spec fn upgrade(self, new_wasm_hash: WasmHash) -> Result<(Self, Seq<Effect>), Error> {
        match self.dao {
            None => Err(Error::NotInitialised),
            Some(dao) => Ok(
                (self, seq![Effect::RequireAuth(dao), Effect::UpdateWasm(new_wasm_hash)]),
            ),
        }
    }
}

// ── What always holds ─────────────────────────────────────────────

/// What one epoch brought in a token.
pub open spec fn token_revenue_of(epoch: u64) -> spec_fn((u64, Address), i128) -> int {
    |key: (u64, Address), amount: i128|
        if key.0 == epoch {
            amount as int
        } else {
            0
        }
}

/// What one epoch brought in the tokens of a list, added up.
pub open spec fn revenue_in(
    revenue: Map<(u64, Address), i128>,
    epoch: u64,
    tokens: Seq<Address>,
) -> int
    decreases tokens.len(),
{
    if tokens.len() == 0 {
        0
    } else {
        revenue_in(revenue, epoch, tokens.drop_last()) + amount_at(revenue, (epoch, tokens.last()))
    }
}

/// What one epoch brought a partner.
pub open spec fn partner_revenue_of(epoch: u64) -> spec_fn((u64, u32), i128) -> int {
    |key: (u64, u32), amount: i128|
        if key.0 == epoch {
            amount as int
        } else {
            0
        }
}

impl EarningsState {
    /// The books of an epoch balance.
    pub open spec fn epoch_sound(self, epoch: u64) -> bool {
        let ep = self.epochs[epoch];
        &&& ep.epoch_id == epoch
        &&& epoch <= self.current_epoch
        &&& ep.finalized <==> epoch < self.current_epoch
        &&& ep.total_revenue == ep.partner_revenue + ep.protocol_revenue
        &&& ep.protocol_revenue == sums::total(self.epoch_revenue, token_revenue_of(epoch))
        &&& ep.partner_revenue == sums::total(self.partner_revenue, partner_revenue_of(epoch))
        &&& ep.partner_revenue >= 0
    }

    /// What holds of the contract at all times.
    pub open spec fn sound(self) -> bool {
        &&& self.epoch_revenue.dom().finite()
        &&& self.partner_revenue.dom().finite()
        &&& self.admin is None ==> self.epochs == Map::<u64, EpochData>::empty()
            && self.current_epoch == 0
        &&& self.admin is Some ==> self.epochs.contains_key(self.current_epoch)
        &&& forall|e: u64| #[trigger] self.epochs.contains_key(e) ==> self.epoch_sound(e)
        &&& forall|k: (u64, Address)| #[trigger]
            self.epoch_revenue.contains_key(k) ==> self.epochs.contains_key(k.0) && tokens_of(
            self.epoch_tokens,
            k.0,
        ).contains(k.1)
        &&& forall|k: (u64, u32)| #[trigger]
            self.partner_revenue.contains_key(k) ==> self.epochs.contains_key(k.0)
        &&& forall|e: u64| #[trigger]
            self.epoch_tokens.contains_key(e) ==> self.epoch_tokens[e].no_duplicates()
    }
}

/// A call that can change the contract.
pub enum Call {
    Initialize {
        admin: Address,
        treasury: Address,
        dev_fund: Address,
        stab_pool: Address,
        dao: Address,
        partner_reg: Address,
    },
    RegisterLp { admin: Address, lp: Address },
    ReceiveRevenue {
        sender: Address,
        token: Address,
        amount: i128,
        source: Symbol,
        partner_id: u32,
        registered_share: i128,
        total_deposits: i128,
    },
    FinalizeEpoch { total_deposits: i128 },
    Claim { claimer: Address, epochs: Seq<u64>, deposit: i128 },
}

impl EarningsState {
    /// The contract after a call.
    pub open spec fn after(self, env: Context, call: Call) -> EarningsState {
        match call {
            Call::Initialize { admin, treasury, dev_fund, stab_pool, dao, partner_reg } =>
            error::next(
                self,
                self.initialize(env, admin, treasury, dev_fund, stab_pool, dao, partner_reg),
            ),
            Call::RegisterLp { admin, lp } => error::next(self, self.register_lp(admin, lp)),
            Call::ReceiveRevenue {
                sender,
                token,
                amount,
                source,
                partner_id,
                registered_share,
                total_deposits,
            } => error::next(
                self,
                self.receive_revenue(
                    env,
                    sender,
                    token,
                    amount,
                    source,
                    partner_id,
                    registered_share,
                    total_deposits,
                ),
            ),
            Call::FinalizeEpoch { total_deposits } => error::next_on(
                self,
                self.finalize_epoch(env, total_deposits),
            ),
            Call::Claim { claimer, epochs, deposit } => error::next_on(
                self,
                self.claim(claimer, epochs, deposit),
            ),
        }
    }
}

/// The payments of an epoch do not depend on what is only booked.
pub proof fn lemma_same_payments(
    s: EarningsState,
    t: EarningsState,
    env: Context,
    tokens: Seq<Address>,
    n: nat,
)
    requires
        t == (EarningsState {
            epochs: t.epochs,
            partner_revenue: t.partner_revenue,
            epoch_tokens: t.epoch_tokens,
            claimed: t.claimed,
            ..s
        }),
    ensures
        t.payments(env, tokens, n) == s.payments(env, tokens, n),
    decreases n,
{
    if n > 0 {
        lemma_same_payments(s, t, env, tokens, (n - 1) as nat);
        let token = tokens[n - 1];
        let amount = amount_at(s.epoch_revenue, (s.current_epoch, token)) as int;
        lemma_same_amount_payments(s, t, env, token, amount);
    }
}

/// The payments of an amount depend on who is paid.
pub proof fn lemma_same_amount_payments(
    s: EarningsState,
    t: EarningsState,
    env: Context,
    token: Address,
    amount: int,
)
    requires
        t.lps == s.lps,
        t.lp_count == s.lp_count,
        t.treasury == s.treasury,
        t.dev_fund == s.dev_fund,
        t.stab_pool == s.stab_pool,
    ensures
        t.amount_payments(env, token, amount) == s.amount_payments(env, token, amount),
{
    let each = arith::quot(part(amount, LP_SHARE as int), s.lp_count as int);
    lemma_same_pool_payments(s, t, env, token, each, s.lp_count as nat);
}

proof fn lemma_same_pool_payments(
    s: EarningsState,
    t: EarningsState,
    env: Context,
    token: Address,
    each: int,
    n: nat,
)
    requires
        t.lps == s.lps,
    ensures
        t.pool_payments(env, token, each, n) == s.pool_payments(env, token, each, n),
    decreases n,
{
    if n > 0 {
        lemma_same_pool_payments(s, t, env, token, each, (n - 1) as nat);
    }
}

/// An epoch is claimed where it was before or is newly.
pub proof fn lemma_with_claims(
    claimed: Map<(Address, u64), bool>,
    claimer: Address,
    epochs: Seq<u64>,
    who: Address,
    epoch: u64,
)
    ensures
        is_claimed(with_claims(claimed, claimer, epochs), who, epoch) <==> is_claimed(
            claimed,
            who,
            epoch,
        ) || (who == claimer && epochs.contains(epoch)),
    decreases epochs.len(),
{
    if epochs.len() > 0 {
        let front = epochs.drop_last();
        lemma_with_claims(claimed, claimer, front, who, epoch);
        if front.contains(epoch) {
            let i = choose|i: int| 0 <= i < front.len() && front[i] == epoch;
            assert(epochs[i] == epoch);
        }
        if epochs.contains(epoch) && epochs.last() != epoch {
            let i = choose|i: int| 0 <= i < epochs.len() && epochs[i] == epoch;
            assert(front[i] == epoch);
        }
        if epochs.last() == epoch {
            assert(epochs[epochs.len() - 1] == epoch);
        }
    }
}

} // verus!
