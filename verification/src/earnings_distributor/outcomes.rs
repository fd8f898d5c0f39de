//! What the calls on the distributor take, pay and leave, told from the numbers
//! that it stores.
use crate::arith;
use crate::earnings_distributor;
use crate::earnings_distributor::laws;
use crate::earnings_distributor::model;
use crate::earnings_distributor::model::EarningsState;
use crate::earnings_distributor::{
    Effect, EpochClosed, EpochData, EpochOpened, PartnerRevenueForwarded, RevenueClaimed,
    RevenueReceived,
};
use crate::error::Error;
use crate::sums;
use crate::types::{Address, Context, Symbol, WasmHash};
use vstd::prelude::*;

verus! {

// ── Claims ────────────────────────────────────────────────────────

/// Nobody was paid for the epoch under this name.
pub open spec fn unpaid(s: EarningsState, claimer: Address, epoch: u64) -> bool {
    !(s.claimed.contains_key((claimer, epoch)) && s.claimed[(claimer, epoch)])
}

/// The epoch is closed, there were deposits, and the claimer was not paid yet.
pub open spec fn waiting(s: EarningsState, claimer: Address, epoch: u64) -> bool {
    &&& s.epochs.contains_key(epoch)
    &&& s.epochs[epoch].finalized
    &&& s.epochs[epoch].staker_snapshot != 0
    &&& unpaid(s, claimer, epoch)
}

/// A deposit's share of an epoch: of thirty-five hundredths of what the epoch
/// brought the protocol, as much as the deposit is of all deposits then.
pub open spec fn pro_rata(ep: EpochData, deposit: i128, share: int) -> bool {
    arith::rounded_to_zero(
        share,
        3_500 * ep.protocol_revenue * deposit,
        ep.staker_snapshot * 10_000,
    )
}

/// What a claim sends out.
pub open spec fn claim_notices(claimer: Address, total: i128) -> Seq<Effect> {
    if total > 0 {
        seq![
            Effect::RequireAuth(claimer),
            Effect::RevenueClaimed(RevenueClaimed { claimer, total }),
        ]
    } else {
        seq![Effect::RequireAuth(claimer)]
    }
}

/// A claim of no epoch pays nothing and changes nothing; it takes a deposit.
pub proof fn law_claim_of_none(s: EarningsState, claimer: Address, deposit: i128)
    ensures
        s.claim(claimer, Seq::empty(), deposit) is Ok <==> s.stab_pool is Some && deposit > 0,
        s.claim(claimer, Seq::empty(), deposit) matches Ok((t, total, effects)) ==> {
            &&& t == s
            &&& total == 0
            &&& effects == seq![Effect::RequireAuth(claimer)]
        },
        s.claim(claimer, Seq::empty(), deposit) matches Err(e) ==> e == (if s.stab_pool is None {
            Error::NotInitialised
        } else {
            Error::NoStabilityDeposit
        }),
{
}

/// A claim of one epoch pays the deposit's share of it, and marks the epoch,
/// where it waits to be claimed and the share is positive; else nothing.
pub proof fn law_claim_of_one(
    s: EarningsState,
    claimer: Address,
    epoch: u64,
    deposit: i128,
    share: int,
)
    requires
        waiting(s, claimer, epoch) ==> pro_rata(s.epochs[epoch], deposit, share),
    ensures
        ({
            let ep = s.epochs[epoch];
            s.claim(claimer, seq![epoch], deposit) is Ok <==> {
                &&& s.stab_pool is Some
                &&& deposit > 0
                &&& waiting(s, claimer, epoch) ==> {
                    &&& arith::fits(3_500 * ep.protocol_revenue)
                    &&& arith::fits(3_500 * ep.protocol_revenue * deposit)
                    &&& arith::fits(ep.staker_snapshot * 10_000)
                }
            }
        }),
        s.claim(claimer, seq![epoch], deposit) matches Ok((t, total, effects)) ==> {
            &&& effects == claim_notices(claimer, total)
            &&& waiting(s, claimer, epoch) && share > 0 ==> total == share && t == (EarningsState {
                claimed: s.claimed.insert((claimer, epoch), true),
                ..s
            })
            &&& !waiting(s, claimer, epoch) || share <= 0 ==> total == 0 && t == s
        },
{
    let ep = s.epochs[epoch];
    let list = seq![epoch];
    assert(s.claims(claimer, deposit as int, list, 0) == Ok::<(Seq<u64>, int), Error>(
        (Seq::empty(), 0),
    ));
    if waiting(s, claimer, epoch) {
        let n = 3_500 * ep.protocol_revenue * deposit;
        let d = ep.staker_snapshot * 10_000;
        arith::lemma_rounded_to_zero(share, n, d);
        if arith::fits(n) {
            earnings_distributor::lemma_quot_small(n, d);
        }
    }
    assert(Seq::<u64>::empty().push(epoch).drop_last() =~= Seq::<u64>::empty());
    reveal_with_fuel(EarningsState::claims, 2);
    reveal_with_fuel(model::with_claims, 2);
}

proof fn lemma_same_claims(
    s: EarningsState,
    claimer: Address,
    deposit: int,
    epochs: Seq<u64>,
    epoch: u64,
    n: nat,
)
    requires
        n <= epochs.len(),
    ensures
        s.claims(claimer, deposit, epochs.push(epoch), n) == s.claims(
            claimer,
            deposit,
            epochs,
            n,
        ),
    decreases n,
{
    if n > 0 {
        lemma_same_claims(s, claimer, deposit, epochs, epoch, (n - 1) as nat);
    }
}

/// Claiming a list with one more epoch is claiming the list and then the epoch:
/// the two payments add up, and the same epochs are marked. What the one more
/// epoch adds to the payment is its share where it is newly marked, and nothing
/// where it is not.
pub proof fn law_claims_add_up(
    s: EarningsState,
    claimer: Address,
    epochs: Seq<u64>,
    epoch: u64,
    deposit: i128,
    share: int,
)
    requires
        waiting(s, claimer, epoch) ==> pro_rata(s.epochs[epoch], deposit, share),
    ensures
        ({
            let whole = s.claim(claimer, epochs.push(epoch), deposit);
            let first = s.claim(claimer, epochs, deposit);
            let second = first->Ok_0.0.claim(claimer, seq![epoch], deposit);
            &&& whole is Ok <==> {
                &&& first is Ok
                &&& second is Ok
                &&& arith::fits(first->Ok_0.1 + second->Ok_0.1)
            }
            &&& whole matches Ok((u, total, effects)) ==> {
                &&& total == first->Ok_0.1 + second->Ok_0.1
                &&& u == second->Ok_0.0
                &&& effects == claim_notices(claimer, total)
                &&& unpaid(first->Ok_0.0, claimer, epoch) && !unpaid(u, claimer, epoch)
                    ==> total - first->Ok_0.1 == share && share > 0
                &&& !unpaid(first->Ok_0.0, claimer, epoch) || unpaid(u, claimer, epoch) ==> total
                    == first->Ok_0.1
            }
        }),
{
    let longer = epochs.push(epoch);
    let n = epochs.len();
    lemma_same_claims(s, claimer, deposit as int, epochs, epoch, n);
    let first = s.claim(claimer, epochs, deposit);
    if first is Ok {
        let t = first->Ok_0.0;
        let (newly, before) = s.claims(claimer, deposit as int, epochs, n)->Ok_0;
        laws::lemma_claims_grow(s, claimer, deposit as int, epochs, n, n);
        model::lemma_with_claims(s.claimed, claimer, newly, claimer, epoch);
        law_claim_of_one(t, claimer, epoch, deposit, share);
        if waiting(s, claimer, epoch) {
            let ep = s.epochs[epoch];
            arith::lemma_rounded_to_zero(
                share,
                3_500 * ep.protocol_revenue * deposit,
                ep.staker_snapshot * 10_000,
            );
        }
        assert(newly.push(epoch).drop_last() =~= newly);
        assert(longer[n as int] == epoch);
    }
}

// ── Revenue ───────────────────────────────────────────────────────

/// The tokens that an epoch has on its list.
pub open spec fn listed(s: EarningsState, epoch: u64) -> Seq<Address> {
    if s.epoch_tokens.contains_key(epoch) {
        s.epoch_tokens[epoch]
    } else {
        Seq::empty()
    }
}

/// Revenue that comes while the epoch runs is booked. A partner that brought it
/// gets the registered share, and half where none is registered; what is left is
/// the protocol's. All of it counts towards the epoch's total, and the token is
/// on the epoch's list once.
pub proof fn law_receive_revenue(
    s: EarningsState,
    env: Context,
    sender: Address,
    token: Address,
    amount: i128,
    source: Symbol,
    partner_id: u32,
    registered_share: i128,
    total_deposits: i128,
    share: i128,
    cut: int,
)
    requires
        env.timestamp < s.epochs[s.current_epoch].end_time,
        share == (if s.partner_reg is Some && registered_share > 0 {
            registered_share
        } else {
            5_000
        }),
        partner_id == 0 ==> cut == 0,
        partner_id > 0 && amount > 0 ==> arith::rounded_down(cut, amount * share, 10_000),
    ensures
        ({
            let epoch = s.current_epoch;
            let ep = s.epochs[epoch];
            let partner = (epoch, partner_id);
            let key = (epoch, token);
            let step = s.receive_revenue(
                env,
                sender,
                token,
                amount,
                source,
                partner_id,
                registered_share,
                total_deposits,
            );
            &&& step is Ok <==> {
                &&& amount > 0
                &&& s.epochs.contains_key(epoch)
                &&& partner_id > 0 ==> arith::fits(amount * share)
                &&& cut > 0 ==> {
                    &&& s.partner_reg is Some
                    &&& arith::fits(sums::amount_at(s.partner_revenue, partner) + cut)
                    &&& arith::fits(ep.partner_revenue + cut)
                }
                &&& arith::fits(ep.total_revenue + amount)
                &&& arith::fits(ep.protocol_revenue + (amount - cut))
                &&& arith::fits(sums::amount_at(s.epoch_revenue, key) + (amount - cut))
            }
            &&& step matches Ok((t, effects)) ==> {
                &&& t == (EarningsState {
                    epochs: t.epochs,
                    epoch_revenue: t.epoch_revenue,
                    epoch_tokens: t.epoch_tokens,
                    partner_revenue: t.partner_revenue,
                    ..s
                })
                &&& t.epochs == s.epochs.insert(
                    epoch,
                    EpochData {
                        total_revenue: (ep.total_revenue + amount) as i128,
                        partner_revenue: (ep.partner_revenue + cut) as i128,
                        protocol_revenue: (ep.protocol_revenue + (amount - cut)) as i128,
                        ..ep
                    },
                )
                &&& t.epoch_revenue == s.epoch_revenue.insert(
                    key,
                    (sums::amount_at(s.epoch_revenue, key) + (amount - cut)) as i128,
                )
                &&& cut > 0 ==> t.partner_revenue == s.partner_revenue.insert(
                    partner,
                    (sums::amount_at(s.partner_revenue, partner) + cut) as i128,
                )
                &&& cut <= 0 ==> t.partner_revenue == s.partner_revenue
                &&& t.epoch_tokens == s.epoch_tokens.insert(
                    epoch,
                    if listed(s, epoch).contains(token) {
                        listed(s, epoch)
                    } else {
                        listed(s, epoch).push(token)
                    },
                )
                &&& effects[0] == Effect::RequireAuth(sender)
                &&& effects[1] == Effect::Transfer {
                    token,
                    from: sender,
                    to: env.contract,
                    amount,
                }
                &&& effects.last() == Effect::RevenueReceived(
                    RevenueReceived { sender, source, token, amount, epoch },
                )
                &&& cut <= 0 ==> effects.len() == 3
                &&& cut > 0 ==> {
                    let registry = s.partner_reg->0;
                    let paid = cut as i128;
                    &&& effects.len() == 6
                    &&& effects[2] == Effect::Transfer {
                        token,
                        from: env.contract,
                        to: registry,
                        amount: paid,
                    }
                    &&& effects[3] == Effect::CreditPartnerRevenue {
                        registry,
                        caller: env.contract,
                        partner_id,
                        amount: paid,
                        epoch,
                    }
                    &&& effects[4] == Effect::PartnerRevenueForwarded(
                        PartnerRevenueForwarded { partner_id, epoch, partner_cut: paid, source },
                    )
                }
            }
        }),
{
    if amount > 0 {
        assert(amount * share >= 0) by (nonlinear_arith)
            requires
                amount > 0,
                share > 0,
        ;
        arith::lemma_rounded_down(cut, amount * share, 10_000);
    }
}

/// Revenue that comes once the epoch's time is over is booked as if it came in
/// time, and the epoch is closed right after.
pub proof fn law_late_revenue_closes(
    s: EarningsState,
    env: Context,
    early: Context,
    sender: Address,
    token: Address,
    amount: i128,
    source: Symbol,
    partner_id: u32,
    registered_share: i128,
    total_deposits: i128,
)
    requires
        s.sound(),
        early.contract == env.contract,
        early.timestamp < s.epochs[s.current_epoch].end_time <= env.timestamp,
    ensures
        ({
            let late = s.receive_revenue(
                env,
                sender,
                token,
                amount,
                source,
                partner_id,
                registered_share,
                total_deposits,
            );
            let booked = s.receive_revenue(
                early,
                sender,
                token,
                amount,
                source,
                partner_id,
                registered_share,
                total_deposits,
            );
            let closed = booked->Ok_0.0.finalize_epoch(env, total_deposits);
            &&& late is Ok <==> booked is Ok && closed is Ok
            &&& late matches Ok((t, effects)) ==> {
                &&& t == closed->Ok_0.0
                &&& effects == booked->Ok_0.1 + closed->Ok_0.2
            }
        }),
{
    if s.epochs.contains_key(s.current_epoch) {
        assert(s.epoch_sound(s.current_epoch));
    }
}

// ── Closing ───────────────────────────────────────────────────────

/// There is nothing of the token, or what each gets of it can be worked out and
/// every pool is known.
pub open spec fn payable(s: EarningsState, token: Address) -> bool {
    let amount = sums::amount_at(s.epoch_revenue, (s.current_epoch, token));
    amount != 0 ==> {
        &&& arith::fits(amount * 1_000)
        &&& arith::fits(amount * 500)
        &&& arith::fits(amount * 2_000)
        &&& arith::fits(amount * 3_000)
        &&& forall|i: u32| i < s.lp_count ==> #[trigger] s.lps.contains_key(i)
    }
}

proof fn lemma_pools_payable(s: EarningsState, env: Context, token: Address, each: int, n: nat)
    requires
        n <= s.lp_count,
    ensures
        s.pool_payments(env, token, each, n) is Ok <==> forall|i: u32|
            i < n ==> #[trigger] s.lps.contains_key(i),
        s.pool_payments(env, token, each, n) matches Ok(p) ==> p == pools_paid(
            s,
            env,
            token,
            each,
            n,
        ),
    decreases n,
{
    if n > 0 {
        let place = (n - 1) as u32;
        lemma_pools_payable(s, env, token, each, (n - 1) as nat);
        if s.lps.contains_key(place) && s.pool_payments(env, token, each, (n - 1) as nat) is Ok {
            assert forall|i: u32| i < n implies #[trigger] s.lps.contains_key(i) by {
                if i != place {
                    assert(i < n - 1);
                }
            }
        }
    }
}

/// Each of the first `n` pools gets the same, if there is anything to get.
pub open spec fn pools_paid(
    s: EarningsState,
    env: Context,
    token: Address,
    each: int,
    n: nat,
) -> Seq<Effect> {
    if each > 0 {
        Seq::new(
            n,
            |i: int|
                Effect::Transfer {
                    token,
                    from: env.contract,
                    to: s.lps[i as u32],
                    amount: each as i128,
                },
        )
    } else {
        Seq::empty()
    }
}

/// One payment, if there is anything to pay.
pub open spec fn one_paid(env: Context, token: Address, to: Address, amount: int) -> Seq<Effect> {
    if amount > 0 {
        seq![Effect::Transfer { token, from: env.contract, to, amount: amount as i128 }]
    } else {
        Seq::empty()
    }
}

proof fn lemma_payable(s: EarningsState, env: Context, token: Address)
    ensures
        s.token_payments(env, token) is Ok <==> payable(s, token),
{
    let amount = sums::amount_at(s.epoch_revenue, (s.current_epoch, token));
    let each = arith::quot(model::part(amount, 3_000), s.lp_count as int);
    lemma_pools_payable(s, env, token, each, s.lp_count as nat);
}

proof fn lemma_all_payable(s: EarningsState, env: Context, tokens: Seq<Address>, n: nat)
    requires
        n <= tokens.len(),
    ensures
        s.payments(env, tokens, n) is Ok <==> forall|i: int|
            0 <= i < n ==> payable(s, #[trigger] tokens[i]),
    decreases n,
{
    if n > 0 {
        lemma_all_payable(s, env, tokens, (n - 1) as nat);
        lemma_payable(s, env, tokens[n - 1]);
        if s.payments(env, tokens, (n - 1) as nat) is Ok && payable(s, tokens[n - 1]) {
            assert forall|i: int| 0 <= i < n implies payable(s, #[trigger] tokens[i]) by {
                if i != n - 1 {
                    assert(0 <= i < n - 1);
                }
            }
        }
    }
}

/// An epoch can be closed once its time is over, if all that it brought can be
/// paid out. It is then final, with what was deposited at that moment, and the
/// next epoch opens empty for a week; all else stays.
pub proof fn law_finalize_epoch(s: EarningsState, env: Context, total_deposits: i128)
    ensures
        ({
            let epoch = s.current_epoch;
            let ep = s.epochs[epoch];
            let next = (epoch + 1) as u64;
            let step = s.finalize_epoch(env, total_deposits);
            &&& step is Ok <==> {
                &&& s.epochs.contains_key(epoch)
                &&& env.timestamp >= ep.end_time
                &&& !ep.finalized
                &&& s.stab_pool is Some
                &&& s.treasury is Some
                &&& s.dev_fund is Some
                &&& forall|i: int|
                    0 <= i < listed(s, epoch).len() ==> payable(s, #[trigger] listed(s, epoch)[i])
                &&& epoch < 0xffff_ffff_ffff_ffff
                &&& env.timestamp + 604_800 <= 0xffff_ffff_ffff_ffff
            }
            &&& step matches Ok((t, closed, effects)) ==> {
                &&& closed == epoch
                &&& t == (EarningsState {
                    epochs: s.epochs.insert(
                        epoch,
                        EpochData { staker_snapshot: total_deposits, finalized: true, ..ep },
                    ).insert(
                        next,
                        EpochData {
                            epoch_id: next,
                            start_time: env.timestamp,
                            end_time: (env.timestamp + 604_800) as u64,
                            total_revenue: 0,
                            partner_revenue: 0,
                            protocol_revenue: 0,
                            staker_snapshot: 0,
                            per_token_revenue: 0,
                            finalized: false,
                        },
                    ),
                    current_epoch: next,
                    ..s
                })
                &&& effects.len() >= 2
                &&& effects[effects.len() - 2] == Effect::EpochClosed(
                    EpochClosed { epoch, total_revenue: ep.total_revenue },
                )
                &&& effects.last() == Effect::EpochOpened(EpochOpened { epoch: next })
            }
            &&& s.epochs.contains_key(epoch) && env.timestamp < ep.end_time ==> step == Err::<
                (EarningsState, u64, Seq<Effect>),
                Error,
            >(Error::EpochNotComplete)
        }),
{
    let tokens = listed(s, s.current_epoch);
    lemma_all_payable(s, env, tokens, tokens.len());
}

/// An epoch that brought nothing pays nothing out.
pub proof fn law_close_without_tokens(s: EarningsState, env: Context, total_deposits: i128)
    requires
        listed(s, s.current_epoch).len() == 0,
    ensures
        s.finalize_epoch(env, total_deposits) matches Ok((t, _, effects)) ==> effects.len() == 2,
{
}

/// What an epoch brought in one token is paid out in its parts: a tenth to the
/// treasury, a twentieth to the developers, a fifth to the stability pool, and
/// three tenths to the pools, each the same.
pub proof fn law_close_with_one_token(
    s: EarningsState,
    env: Context,
    total_deposits: i128,
    token: Address,
    treasury: int,
    dev: int,
    stab: int,
    pools: int,
    each: int,
)
    requires
        listed(s, s.current_epoch) == seq![token],
        ({
            let amount = sums::amount_at(s.epoch_revenue, (s.current_epoch, token));
            &&& arith::rounded_to_zero(treasury, amount * 1_000, 10_000)
            &&& arith::rounded_to_zero(dev, amount * 500, 10_000)
            &&& arith::rounded_to_zero(stab, amount * 2_000, 10_000)
            &&& arith::rounded_to_zero(pools, amount * 3_000, 10_000)
            &&& s.lp_count > 0 ==> arith::rounded_to_zero(each, pools, s.lp_count as int)
        }),
    ensures
        s.finalize_epoch(env, total_deposits) matches Ok((t, _, effects)) ==> effects.take(
            effects.len() - 2,
        ) == one_paid(env, token, s.treasury->0, treasury) + one_paid(
            env,
            token,
            s.dev_fund->0,
            dev,
        ) + one_paid(env, token, s.stab_pool->0, stab) + pools_paid(
            s,
            env,
            token,
            each,
            s.lp_count as nat,
        ),
{
    let amount = sums::amount_at(s.epoch_revenue, (s.current_epoch, token));
    arith::lemma_rounded_to_zero(treasury, amount * 1_000, 10_000);
    arith::lemma_rounded_to_zero(dev, amount * 500, 10_000);
    arith::lemma_rounded_to_zero(stab, amount * 2_000, 10_000);
    arith::lemma_rounded_to_zero(pools, amount * 3_000, 10_000);
    if s.lp_count > 0 {
        arith::lemma_rounded_to_zero(each, pools, s.lp_count as int);
    }
    let tokens = listed(s, s.current_epoch);
    lemma_pools_payable(s, env, token, each, s.lp_count as nat);
    reveal_with_fuel(EarningsState::payments, 2);
    let step = s.finalize_epoch(env, total_deposits);
    if step is Ok {
        let effects = step->Ok_0.2;
        let paid = s.payments(env, tokens, 1)->Ok_0;
        assert(effects.take(effects.len() - 2) =~= paid);
        assert(pools_paid(s, env, token, each, 0) =~= Seq::empty());
    }
}

proof fn lemma_payments_split(
    s: EarningsState,
    t: EarningsState,
    env: Context,
    tokens: Seq<Address>,
    token: Address,
    n: nat,
)
    requires
        n <= tokens.len(),
        t == (EarningsState { epoch_tokens: t.epoch_tokens, ..s }),
    ensures
        t.payments(env, tokens.push(token), n) == s.payments(env, tokens, n),
    decreases n,
{
    if n > 0 {
        lemma_payments_split(s, t, env, tokens, token, (n - 1) as nat);
        let amount = model::amount_at(s.epoch_revenue, (s.current_epoch, tokens[n - 1])) as int;
        model::lemma_same_amount_payments(s, t, env, tokens[n - 1], amount);
    }
}

/// Each token of the list is paid out in its turn: with one more token on the
/// list, what is paid is what was paid without it, and then what is paid where
/// it is the only one.
pub proof fn law_close_pays_each_token(
    s: EarningsState,
    env: Context,
    total_deposits: i128,
    tokens: Seq<Address>,
    token: Address,
)
    ensures
        ({
            let epoch = s.current_epoch;
            let with = |list: Seq<Address>|
                EarningsState { epoch_tokens: s.epoch_tokens.insert(epoch, list), ..s }.finalize_epoch(
                    env,
                    total_deposits,
                );
            let whole = with(tokens.push(token));
            let front = with(tokens);
            let alone = with(seq![token]);
            &&& whole is Ok <==> front is Ok && alone is Ok
            &&& whole matches Ok((_, _, effects)) ==> effects == front->Ok_0.2.take(
                front->Ok_0.2.len() - 2,
            ) + alone->Ok_0.2
        }),
{
    let epoch = s.current_epoch;
    let all = tokens.push(token);
    let n = tokens.len();
    let a = EarningsState { epoch_tokens: s.epoch_tokens.insert(epoch, all), ..s };
    let b = EarningsState { epoch_tokens: s.epoch_tokens.insert(epoch, tokens), ..s };
    let c = EarningsState { epoch_tokens: s.epoch_tokens.insert(epoch, seq![token]), ..s };
    lemma_payments_split(b, a, env, tokens, token, n);
    let amount = model::amount_at(s.epoch_revenue, (epoch, token)) as int;
    model::lemma_same_amount_payments(a, c, env, token, amount);
    assert(all[n as int] == token);
    reveal_with_fuel(EarningsState::payments, 2);
    assert(a.payments(env, all, n + 1) == match a.payments(env, all, n) {
        Err(e) => Err(e),
        Ok(before) => match a.token_payments(env, token) {
            Err(e) => Err(e),
            Ok(more) => Ok(before + more),
        },
    });
    assert(c.payments(env, seq![token], 1) == match c.token_payments(env, token) {
        Err(e) => Err(e),
        Ok(more) => Ok(Seq::<Effect>::empty() + more),
    });
    let fa = a.finalize_epoch(env, total_deposits);
    let fb = b.finalize_epoch(env, total_deposits);
    let fc = c.finalize_epoch(env, total_deposits);
    if fa is Ok {
        let paid = b.payments(env, tokens, n)->Ok_0;
        let more = c.token_payments(env, token)->Ok_0;
        let e = fb->Ok_0.2;
        assert(e.take(e.len() - 2) =~= paid);
        assert(Seq::<Effect>::empty() + more =~= more);
        assert(fa->Ok_0.2 =~= paid + fc->Ok_0.2);
    }
}

/// What is refused, and why: the first of the reasons counts.
pub proof fn law_refusals(
    s: EarningsState,
    env: Context,
    caller: Address,
    token: Address,
    amount: i128,
    source: Symbol,
    partner_id: u32,
    registered_share: i128,
    total_deposits: i128,
)
    ensures
        ({
            let step = s.receive_revenue(
                env,
                caller,
                token,
                amount,
                source,
                partner_id,
                registered_share,
                total_deposits,
            );
            &&& amount <= 0 ==> (step matches Err(e) && e == Error::AmountNotPositive)
            &&& amount > 0 && !s.epochs.contains_key(s.current_epoch) ==> (step matches Err(e) && e
                == Error::NotInitialised)
        }),
        ({
            let ep = s.epochs[s.current_epoch];
            let step = s.finalize_epoch(env, total_deposits);
            &&& !s.epochs.contains_key(s.current_epoch) ==> (step matches Err(e) && e
                == Error::NotInitialised)
            &&& s.epochs.contains_key(s.current_epoch) && env.timestamp >= ep.end_time
                && ep.finalized ==> (step matches Err(e) && e == Error::EpochAlreadyFinalized)
        }),
        s.admin is Some && s.admin != Some(caller) ==> (s.register_lp(caller, token) matches Err(e)
            && e == Error::AdminOnly),
{
}

// ── Setting up and reading ────────────────────────────────────────

/// Setting up stores every address and opens the first epoch for a week; it
/// works once. Only the admin adds a pool, which takes the next place. The
/// code is replaced on the word of the stored DAO.
pub proof fn law_setup(
    s: EarningsState,
    env: Context,
    admin: Address,
    treasury: Address,
    dev_fund: Address,
    stab_pool: Address,
    dao: Address,
    partner_reg: Address,
    lp: Address,
    hash: WasmHash,
)
    ensures
        ({
            let step = s.initialize(env, admin, treasury, dev_fund, stab_pool, dao, partner_reg);
            &&& step is Ok <==> s.admin is None && env.timestamp + 604_800 <= 0xffff_ffff_ffff_ffff
            &&& step matches Ok((t, effects)) ==> {
                &&& effects == seq![Effect::RequireAuth(admin)]
                &&& t == (EarningsState {
                    admin: Some(admin),
                    treasury: Some(treasury),
                    dev_fund: Some(dev_fund),
                    stab_pool: Some(stab_pool),
                    dao: Some(dao),
                    partner_reg: Some(partner_reg),
                    lp_count: 0,
                    current_epoch: 0,
                    epochs: s.epochs.insert(
                        0,
                        EpochData {
                            epoch_id: 0,
                            start_time: env.timestamp,
                            end_time: (env.timestamp + 604_800) as u64,
                            total_revenue: 0,
                            partner_revenue: 0,
                            protocol_revenue: 0,
                            staker_snapshot: 0,
                            per_token_revenue: 0,
                            finalized: false,
                        },
                    ),
                    ..s
                })
            }
        }),
        s.register_lp(admin, lp) is Ok <==> s.admin == Some(admin) && s.lp_count < 0xffff_ffff,
        s.register_lp(admin, lp) matches Ok((t, effects)) ==> {
            &&& effects == seq![Effect::RequireAuth(admin)]
            &&& t == (EarningsState {
                lps: s.lps.insert(s.lp_count, lp),
                lp_count: (s.lp_count + 1) as u32,
                ..s
            })
        },
        s.upgrade(hash) is Ok <==> s.dao is Some,
        s.upgrade(hash) matches Ok((t, effects)) ==> t == s && effects == seq![
            Effect::RequireAuth(s.dao->0),
            Effect::UpdateWasm(hash),
        ],
        ({
            let b = EarningsState::blank();
            &&& b.admin is None && b.treasury is None && b.dev_fund is None && b.stab_pool is None
            &&& b.dao is None && b.partner_reg is None
            &&& b.lp_count == 0 && b.current_epoch == 0
            &&& b.epochs == Map::<u64, EpochData>::empty()
            &&& b.epoch_revenue == Map::<(u64, Address), i128>::empty()
            &&& b.epoch_tokens == Map::<u64, Seq<Address>>::empty()
            &&& b.partner_revenue == Map::<(u64, u32), i128>::empty()
            &&& b.claimed == Map::<(Address, u64), bool>::empty()
            &&& b.lps == Map::<u32, Address>::empty()
        }),
{
}

/// What is read is what is stored: an amount that was never booked reads zero,
/// a list that was never begun is empty, and a claim that was never made is
/// not made.
pub proof fn law_reads(s: EarningsState, epoch: u64, token: Address, partner: u32, who: Address)
    ensures
        s.epoch_revenue.contains_key((epoch, token)) ==> model::amount_at(
            s.epoch_revenue,
            (epoch, token),
        ) == s.epoch_revenue[(epoch, token)],
        !s.epoch_revenue.contains_key((epoch, token)) ==> model::amount_at(
            s.epoch_revenue,
            (epoch, token),
        ) == 0,
        s.partner_revenue.contains_key((epoch, partner)) ==> model::amount_at(
            s.partner_revenue,
            (epoch, partner),
        ) == s.partner_revenue[(epoch, partner)],
        !s.partner_revenue.contains_key((epoch, partner)) ==> model::amount_at(
            s.partner_revenue,
            (epoch, partner),
        ) == 0,
        model::is_claimed(s.claimed, who, epoch) == !unpaid(s, who, epoch),
        model::tokens_of(s.epoch_tokens, epoch) == listed(s, epoch),
{
}

} // verus!
