//! What holds of the earnings distributor over several calls.
use crate::arith;
use crate::earnings_distributor::model;
use crate::earnings_distributor::model::{Call, EarningsState};
use crate::earnings_distributor::{
    Effect, DEFAULT_PARTNER_SHARE, DEV_SHARE, EPOCH_DURATION, HOLDER_SHARE, LP_SHARE, PRECISION,
    STAB_SHARE, TREASURY_SHARE,
};
use crate::error::Error;
use crate::sums;
use crate::types::{Address, Context, Symbol, WasmHash};
use vstd::prelude::*;

verus! {

/// A list with one more token has each token once.
proof fn lemma_with_token(tokens: Seq<Address>, token: Address)
    requires
        tokens.no_duplicates(),
    ensures
        model::with_token(tokens, token).no_duplicates(),
        model::with_token(tokens, token).contains(token),
        forall|t: Address| #[trigger]
            tokens.contains(t) ==> model::with_token(tokens, token).contains(t),
{
    let more = model::with_token(tokens, token);
    if !tokens.contains(token) {
        assert(more[tokens.len() as int] == token);
    }
    assert forall|t: Address| #[trigger] tokens.contains(t) implies more.contains(t) by {
        let i = choose|i: int| 0 <= i < tokens.len() && tokens[i] == t;
        assert(more[i] == t);
    }
    assert forall|i: int, j: int|
        0 <= i < more.len() && 0 <= j < more.len() && i != j implies more[i] != more[j] by {
        if !tokens.contains(token) {
            if i < tokens.len() {
                assert(tokens.contains(tokens[i]));
            }
            if j < tokens.len() {
                assert(tokens.contains(tokens[j]));
            }
        }
    }
}

/// Booking revenue keeps the books.
proof fn lemma_booked(
    s: EarningsState,
    token: Address,
    amount: int,
    partner_id: u32,
    cut: int,
)
    requires
        s.sound(),
        s.epochs.contains_key(s.current_epoch),
        cut >= 0,
        s.booking_defined(token, amount, partner_id, cut),
    ensures
        s.booked(token, amount, partner_id, cut).sound(),
{
    let t = s.booked(token, amount, partner_id, cut);
    let epoch = s.current_epoch;
    let token_key = (epoch, token);
    let partner_key = (epoch, partner_id);
    assert(s.epoch_sound(epoch));
    assert forall|e: u64| #[trigger] t.epochs.contains_key(e) implies t.epoch_sound(e) by {
        assert(s.epochs.contains_key(e));
        assert(s.epoch_sound(e));
        sums::lemma_total_insert(
            s.epoch_revenue,
            model::token_revenue_of(e),
            token_key,
            t.epoch_revenue[token_key],
        );
        sums::lemma_total_insert(
            s.partner_revenue,
            model::partner_revenue_of(e),
            partner_key,
            t.partner_revenue[partner_key],
        );
    }
    assert(model::tokens_of(s.epoch_tokens, epoch).no_duplicates());
    lemma_with_token(model::tokens_of(s.epoch_tokens, epoch), token);
    assert forall|k: (u64, Address)| #[trigger]
        t.epoch_revenue.contains_key(k) implies t.epochs.contains_key(k.0) && model::tokens_of(
        t.epoch_tokens,
        k.0,
    ).contains(k.1) by {
        if k != token_key {
            assert(s.epoch_revenue.contains_key(k));
        }
    }
    assert forall|k: (u64, u32)| #[trigger]
        t.partner_revenue.contains_key(k) implies t.epochs.contains_key(k.0) by {
        if k != partner_key {
            assert(s.partner_revenue.contains_key(k));
        }
    }
    assert forall|e: u64| #[trigger]
        t.epoch_tokens.contains_key(e) implies t.epoch_tokens[e].no_duplicates() by {
        if e != epoch {
            assert(s.epoch_tokens.contains_key(e));
        }
    }
}

/// Closing an epoch keeps the books.
proof fn lemma_close(s: EarningsState, env: Context, total_deposits: i128)
    requires
        s.sound(),
        s.epochs.contains_key(s.current_epoch),
        s.close(env, total_deposits) is Ok,
    ensures
        s.close(env, total_deposits)->Ok_0.0.sound(),
{
    let t = s.close(env, total_deposits)->Ok_0.0;
    let next = t.current_epoch;
    assert(s.epoch_sound(s.current_epoch));
    assert forall|e: u64| #[trigger] t.epochs.contains_key(e) implies t.epoch_sound(e) by {
        if e == next {
            assert forall|k: (u64, Address)| #[trigger]
                s.epoch_revenue.contains_key(k) implies model::token_revenue_of(next)(
                k,
                s.epoch_revenue[k],
            ) == 0 by {
                assert(s.epoch_sound(k.0));
            }
            assert forall|k: (u64, u32)| #[trigger]
                s.partner_revenue.contains_key(k) implies model::partner_revenue_of(next)(
                k,
                s.partner_revenue[k],
            ) == 0 by {
                assert(s.epoch_sound(k.0));
            }
            sums::lemma_total_zero(s.epoch_revenue, model::token_revenue_of(next));
            sums::lemma_total_zero(s.partner_revenue, model::partner_revenue_of(next));
        } else {
            assert(s.epochs.contains_key(e));
            assert(s.epoch_sound(e));
        }
    }
}

/// The partner's cut is not negative.
proof fn lemma_cut(s: EarningsState, amount: int, partner_id: u32, registered_share: i128)
    requires
        amount > 0,
    ensures
        s.partner_cut(amount, partner_id, registered_share) >= 0,
        0 < registered_share <= PRECISION && s.partner_reg is Some || registered_share <= 0
            || s.partner_reg is None ==> s.partner_cut(amount, partner_id, registered_share)
            <= amount,
{
    let share = s.partner_share(registered_share) as int;
    assert(amount * share >= 0) by (nonlinear_arith)
        requires
            amount > 0,
            share > 0,
    ;
    if share <= PRECISION {
        assert(amount * share <= amount * PRECISION) by (nonlinear_arith)
            requires
                amount > 0,
                share <= PRECISION,
        ;
    }
}

/// The contract starts sound.
pub proof fn law_starts_sound()
    ensures
        EarningsState::blank().sound(),
{
}

/// Whatever call comes, and whether it is refused or not, the books of every
/// epoch balance: what came in is what went to partners and what was left for
/// the protocol, and both add up over partners and tokens. Only the open
/// epoch is not closed.
pub proof fn law_stays_sound(s: EarningsState, env: Context, call: Call)
    requires
        s.sound(),
    ensures
        s.after(env, call).sound(),
{
    let t = s.after(env, call);
    match call {
        Call::Initialize { admin, treasury, dev_fund, stab_pool, dao, partner_reg } => {
            if t != s {
                assert forall|k: (u64, Address)| !s.epoch_revenue.contains_key(k) by {
                    if s.epoch_revenue.contains_key(k) {
                        assert(s.epochs.contains_key(k.0));
                    }
                }
                assert forall|k: (u64, u32)| !s.partner_revenue.contains_key(k) by {
                    if s.partner_revenue.contains_key(k) {
                        assert(s.epochs.contains_key(k.0));
                    }
                }
                sums::lemma_total_zero(s.epoch_revenue, model::token_revenue_of(0));
                sums::lemma_total_zero(s.partner_revenue, model::partner_revenue_of(0));
                assert forall|e: u64| #[trigger] t.epochs.contains_key(e) implies t.epoch_sound(
                    e,
                ) by {
                    assert(e == 0);
                }
            }
        },
        Call::RegisterLp { .. } => {
            lemma_same_books(s, t);
        },
        Call::ReceiveRevenue {
            sender,
            token,
            amount,
            source,
            partner_id,
            registered_share,
            total_deposits,
        } => {
            if s.receive_revenue(
                env,
                sender,
                token,
                amount,
                source,
                partner_id,
                registered_share,
                total_deposits,
            ) is Ok {
                let cut = s.partner_cut(amount as int, partner_id, registered_share);
                lemma_cut(s, amount as int, partner_id, registered_share);
                lemma_booked(s, token, amount as int, partner_id, cut);
                let booked = s.booked(token, amount as int, partner_id, cut);
                if env.timestamp >= s.epochs[s.current_epoch].end_time {
                    lemma_close(booked, env, total_deposits);
                }
            }
        },
        Call::FinalizeEpoch { total_deposits } => {
            if s.finalize_epoch(env, total_deposits) is Ok {
                lemma_close(s, env, total_deposits);
            }
        },
        Call::Claim { .. } => {
            lemma_same_books(s, t);
        },
    }
}

proof fn lemma_same_books(s: EarningsState, t: EarningsState)
    requires
        s.sound(),
        t == (EarningsState { claimed: t.claimed, lps: t.lps, lp_count: t.lp_count, ..s }),
    ensures
        t.sound(),
{
    assert forall|e: u64| #[trigger] t.epochs.contains_key(e) implies t.epoch_sound(e) by {
        assert(s.epoch_sound(e));
    }
}

/// What a partner brought is split without loss between the partner and the
/// protocol; the partner gets the share that the registry names, or half.
/// What no partner brought goes to the protocol.
pub proof fn law_split(
    s: EarningsState,
    env: Context,
    sender: Address,
    token: Address,
    amount: i128,
    source: Symbol,
    partner_id: u32,
    registered_share: i128,
    total_deposits: i128,
)
    requires
        s.sound(),
        registered_share <= PRECISION,
    ensures
        s.receive_revenue(
            env,
            sender,
            token,
            amount,
            source,
            partner_id,
            registered_share,
            total_deposits,
        ) matches Ok((t, effects)) ==> {
            let before = s.epochs[s.current_epoch];
            let now = t.epochs[s.current_epoch];
            let cut = now.partner_revenue - before.partner_revenue;
            &&& now.total_revenue == before.total_revenue + amount
            &&& now.protocol_revenue == before.protocol_revenue + amount - cut
            &&& 0 <= cut <= amount
            &&& partner_id == 0 ==> cut == 0
            &&& partner_id > 0 && (registered_share <= 0 || s.partner_reg is None) ==> cut
                == amount as int / 2
            &&& partner_id > 0 && registered_share > 0 && s.partner_reg is Some ==> cut == (amount
                * registered_share) / PRECISION as int
            &&& effects[0] == Effect::RequireAuth(sender)
            &&& effects[1] == (Effect::Transfer {
                token,
                from: sender,
                to: env.contract,
                amount,
            })
        },
{
    let step = s.receive_revenue(
        env,
        sender,
        token,
        amount,
        source,
        partner_id,
        registered_share,
        total_deposits,
    );
    if step is Ok {
        lemma_cut(s, amount as int, partner_id, registered_share);
        let share = s.partner_share(registered_share) as int;
        assert(amount * share >= 0) by (nonlinear_arith)
            requires
                amount > 0,
                share > 0,
        ;
        if share == DEFAULT_PARTNER_SHARE {
            assert((amount * share) / 10_000 == amount as int / 2) by (nonlinear_arith)
                requires
                    share == 5_000,
            ;
        }
    }
}

/// Removing the revenue in a token that is not on a list leaves what the list
/// adds up to.
proof fn lemma_revenue_without(
    revenue: Map<(u64, Address), i128>,
    epoch: u64,
    tokens: Seq<Address>,
    token: Address,
)
    requires
        !tokens.contains(token),
    ensures
        model::revenue_in(revenue.remove((epoch, token)), epoch, tokens) == model::revenue_in(
            revenue,
            epoch,
            tokens,
        ),
    decreases tokens.len(),
{
    if tokens.len() > 0 {
        let front = tokens.drop_last();
        assert(tokens.contains(tokens.last()));
        if front.contains(token) {
            let i = choose|i: int| 0 <= i < front.len() && front[i] == token;
            assert(tokens[i] == token);
        }
        lemma_revenue_without(revenue, epoch, front, token);
    }
}

/// A list that holds every token with revenue, each once, adds up to all
/// revenue of the epoch.
proof fn lemma_revenue_in(
    revenue: Map<(u64, Address), i128>,
    epoch: u64,
    tokens: Seq<Address>,
)
    requires
        revenue.dom().finite(),
        tokens.no_duplicates(),
        forall|k: (u64, Address)| #[trigger]
            revenue.contains_key(k) && k.0 == epoch ==> tokens.contains(k.1),
    ensures
        model::revenue_in(revenue, epoch, tokens) == sums::total(
            revenue,
            model::token_revenue_of(epoch),
        ),
    decreases tokens.len(),
{
    let weight = model::token_revenue_of(epoch);
    if tokens.len() == 0 {
        assert forall|k: (u64, Address)| #[trigger] revenue.contains_key(k) implies weight(
            k,
            revenue[k],
        ) == 0 by {
            if k.0 == epoch {
                assert(tokens.contains(k.1));
            }
        }
        sums::lemma_total_zero(revenue, weight);
    } else {
        let front = tokens.drop_last();
        let token = tokens.last();
        let key = (epoch, token);
        let rest = revenue.remove(key);
        assert(!front.contains(token));
        assert(front.no_duplicates());
        assert forall|k: (u64, Address)| #[trigger]
            rest.contains_key(k) && k.0 == epoch implies front.contains(k.1) by {
            assert(revenue.contains_key(k));
            let i = choose|i: int| 0 <= i < tokens.len() && tokens[i] == k.1;
            assert(front[i] == k.1);
        }
        lemma_revenue_in(rest, epoch, front);
        lemma_revenue_without(revenue, epoch, front, token);
        sums::lemma_total_remove(revenue, weight, key);
    }
}

/// The books of every epoch can be read off the getters: what came in is what
/// went to partners and what was left for the protocol, every token is listed
/// once, and what the listed tokens brought adds up to what was left.
pub proof fn law_tokens_make_the_revenue(s: EarningsState, epoch: u64)
    requires
        s.sound(),
        s.epochs.contains_key(epoch),
    ensures
        ({
            let tokens = model::tokens_of(s.epoch_tokens, epoch);
            &&& s.epochs[epoch].total_revenue == s.epochs[epoch].partner_revenue
                + s.epochs[epoch].protocol_revenue
            &&& tokens.no_duplicates()
            &&& model::revenue_in(s.epoch_revenue, epoch, tokens) == s.epochs[epoch].protocol_revenue
        }),
{
    let tokens = model::tokens_of(s.epoch_tokens, epoch);
    assert(s.epoch_sound(epoch));
    assert(tokens.no_duplicates());
    lemma_revenue_in(s.epoch_revenue, epoch, tokens);
}

/// Payments only move tokens.
proof fn lemma_payments_move(s: EarningsState, env: Context, tokens: Seq<Address>, n: nat)
    requires
        s.payments(env, tokens, n) is Ok,
    ensures
        forall|i: int|
            0 <= i < s.payments(env, tokens, n)->Ok_0.len() ==> #[trigger] s.payments(
                env,
                tokens,
                n,
            )->Ok_0[i] is Transfer,
    decreases n,
{
    if n > 0 {
        lemma_payments_move(s, env, tokens, (n - 1) as nat);
        let amount = model::amount_at(s.epoch_revenue, (s.current_epoch, tokens[n - 1])) as int;
        if amount != 0 {
            let each = arith::quot(model::part(amount, LP_SHARE as int), s.lp_count as int);
            lemma_pool_payments_move(s, env, tokens[n - 1], each, s.lp_count as nat);
        }
    }
}

proof fn lemma_pool_payments_move(
    s: EarningsState,
    env: Context,
    token: Address,
    each: int,
    n: nat,
)
    requires
        s.pool_payments(env, token, each, n) is Ok,
    ensures
        forall|i: int|
            0 <= i < s.pool_payments(env, token, each, n)->Ok_0.len()
                ==> #[trigger] s.pool_payments(env, token, each, n)->Ok_0[i] is Transfer,
    decreases n,
{
    if n > 0 {
        lemma_pool_payments_move(s, env, token, each, (n - 1) as nat);
    }
}

/// Revenue that no partner brought credits nobody at the partner registry, and
/// leaves what partners got as it is.
pub proof fn law_untagged(
    s: EarningsState,
    env: Context,
    sender: Address,
    token: Address,
    amount: i128,
    source: Symbol,
    registered_share: i128,
    total_deposits: i128,
)
    ensures
        s.receive_revenue(
            env,
            sender,
            token,
            amount,
            source,
            0,
            registered_share,
            total_deposits,
        ) matches Ok((t, effects)) ==> {
            &&& t.partner_revenue == s.partner_revenue
            &&& t.epochs[s.current_epoch].partner_revenue
                == s.epochs[s.current_epoch].partner_revenue
            &&& forall|i: int|
                0 <= i < effects.len() ==> !(#[trigger] effects[i] is CreditPartnerRevenue)
        },
{
    let step = s.receive_revenue(
        env,
        sender,
        token,
        amount,
        source,
        0,
        registered_share,
        total_deposits,
    );
    let booked = s.booked(token, amount as int, 0, 0);
    if step is Ok && env.timestamp >= s.epochs[s.current_epoch].end_time {
        let tokens = model::tokens_of(booked.epoch_tokens, booked.current_epoch);
        lemma_payments_move(booked, env, tokens, tokens.len());
    }
}

/// The parts of the protocol's revenue make a whole.
pub proof fn law_parts_make_a_whole()
    ensures
        HOLDER_SHARE + LP_SHARE + STAB_SHARE + TREASURY_SHARE + DEV_SHARE == PRECISION,
        DEFAULT_PARTNER_SHARE * 2 == PRECISION,
{
}

/// What effects take out of the contract.
pub open spec fn paid(effects: Seq<Effect>) -> int
    decreases effects.len(),
{
    if effects.len() == 0 {
        0
    } else {
        paid(effects.drop_last()) + match effects.last() {
            Effect::Transfer { amount, .. } => amount as int,
            _ => 0,
        }
    }
}

proof fn lemma_paid(a: Seq<Effect>, b: Seq<Effect>)
    ensures
        paid(a + b) == paid(a) + paid(b),
    decreases b.len(),
{
    if b.len() == 0 {
        assert(a + b =~= a);
    } else {
        lemma_paid(a, b.drop_last());
        assert((a + b).drop_last() =~= a + b.drop_last());
        assert((a + b).last() == b.last());
    }
}

proof fn lemma_payment(token: Address, from: Address, to: Address, amount: int)
    requires
        0 <= amount <= i128::MAX,
    ensures
        paid(model::payment(token, from, to, amount)) == amount,
{
    reveal_with_fuel(paid, 2);
    if amount > 0 {
        let p = model::payment(token, from, to, amount);
        assert(p.drop_last() =~= Seq::<Effect>::empty());
    }
}

proof fn lemma_pools_paid(s: EarningsState, env: Context, token: Address, each: int, n: nat)
    requires
        0 <= each <= i128::MAX,
    ensures
        s.pool_payments(env, token, each, n) matches Ok(p) ==> paid(p) == each * n,
    decreases n,
{
    if n > 0 {
        lemma_pools_paid(s, env, token, each, (n - 1) as nat);
        if s.pool_payments(env, token, each, n) is Ok {
            let before = s.pool_payments(env, token, each, (n - 1) as nat)->Ok_0;
            let more = model::payment(token, env.contract, s.lps[(n - 1) as u32], each);
            lemma_paid(before, more);
            lemma_payment(token, env.contract, s.lps[(n - 1) as u32], each);
            assert(each * (n - 1) + each == each * n) by (nonlinear_arith);
        }
    } else {
        assert(each * 0 == 0) by (nonlinear_arith);
    }
}

/// Closing an epoch pays out of what a token brought at most what is not for
/// the depositors of the stability pool; their part stays.
pub proof fn law_depositors_part_stays(s: EarningsState, env: Context, token: Address, amount: i128)
    requires
        amount >= 0,
    ensures
        s.amount_payments(env, token, amount as int) matches Ok(payments) ==> paid(payments)
            + model::part(amount as int, HOLDER_SHARE as int) <= amount,
{
    if s.amount_payments(env, token, amount as int) is Ok && amount > 0 {
        let a = amount as int;
        let treasury = model::part(a, TREASURY_SHARE as int);
        let dev = model::part(a, DEV_SHARE as int);
        let stab = model::part(a, STAB_SHARE as int);
        let pools = model::part(a, LP_SHARE as int);
        let each = arith::quot(pools, s.lp_count as int);
        let n = s.lp_count as nat;
        let p1 = model::payment(token, env.contract, s.treasury->0, treasury);
        let p2 = model::payment(token, env.contract, s.dev_fund->0, dev);
        let p3 = model::payment(token, env.contract, s.stab_pool->0, stab);
        lemma_payment(token, env.contract, s.treasury->0, treasury);
        lemma_payment(token, env.contract, s.dev_fund->0, dev);
        lemma_payment(token, env.contract, s.stab_pool->0, stab);
        lemma_paid(p1, p2);
        lemma_paid(p1 + p2, p3);
        let p4 = s.pool_payments(env, token, each, n)->Ok_0;
        lemma_paid(p1 + p2 + p3, p4);
        if n == 0 {
            assert(paid(p4) == 0);
        } else {
            arith::lemma_quot_range(pools, n as int);
            lemma_pools_paid(s, env, token, each, n);
        }
    }
}

/// A depositor gets no more of the depositors' part than the deposit makes of
/// all deposits.
pub proof fn law_pro_rata(s: EarningsState, epoch: u64, deposit: i128)
    requires
        s.claimable(epoch),
        deposit > 0,
        s.epochs[epoch].protocol_revenue >= 0,
        s.epochs[epoch].staker_snapshot > 0,
    ensures
        s.share_of(epoch, deposit as int) * s.epochs[epoch].staker_snapshot * PRECISION
            <= HOLDER_SHARE * s.epochs[epoch].protocol_revenue * deposit,
        deposit <= s.epochs[epoch].staker_snapshot ==> s.share_of(epoch, deposit as int) * PRECISION
            <= HOLDER_SHARE * s.epochs[epoch].protocol_revenue,
{
    let ep = s.epochs[epoch];
    let bucket = HOLDER_SHARE * ep.protocol_revenue;
    let snapshot = ep.staker_snapshot as int;
    let d = deposit as int;
    assert(bucket * d >= 0) by (nonlinear_arith)
        requires
            bucket >= 0,
            d > 0,
    ;
    arith::lemma_quot_range(bucket * d, snapshot * PRECISION);
    let share = s.share_of(epoch, d);
    assert(share * (snapshot * PRECISION) == share * snapshot * PRECISION) by (nonlinear_arith);
    if d <= snapshot {
        assert(share * PRECISION <= bucket) by (nonlinear_arith)
            requires
                share * snapshot * PRECISION <= bucket * d,
                d <= snapshot,
                snapshot > 0,
                bucket >= 0,
                share >= 0,
        ;
    }
}

/// Whoever claims again gets nothing.
pub proof fn law_no_double_claim(
    s: EarningsState,
    claimer: Address,
    epochs: Seq<u64>,
    deposit: i128,
)
    ensures
        s.claim(claimer, epochs, deposit) matches Ok((t, total, effects)) ==> {
            &&& effects[0] == Effect::RequireAuth(claimer)
            &&& total >= 0
            &&& (t.claim(claimer, epochs, deposit) matches Ok((u, again, _)) && again == 0 && u == t)
        },
{
    let step = s.claim(claimer, epochs, deposit);
    if step is Ok {
        let t = step->Ok_0.0;
        let newly = s.claims(claimer, deposit as int, epochs, epochs.len())->Ok_0.0;
        lemma_claims_grow(s, claimer, deposit as int, epochs, epochs.len(), epochs.len());
        lemma_claimed_again(s, t, claimer, deposit as int, epochs, epochs.len(), newly);
    }
}

/// What is newly claimed of some epochs is newly claimed of more, and the sum
/// is not negative.
pub proof fn lemma_claims_grow(
    s: EarningsState,
    claimer: Address,
    deposit: int,
    epochs: Seq<u64>,
    n: nat,
    m: nat,
)
    requires
        n <= m,
        s.claims(claimer, deposit, epochs, m) is Ok,
    ensures
        s.claims(claimer, deposit, epochs, n) is Ok,
        s.claims(claimer, deposit, epochs, n)->Ok_0.1 >= 0,
        arith::fits(s.claims(claimer, deposit, epochs, n)->Ok_0.1),
        forall|e: u64| #[trigger]
            s.claims(claimer, deposit, epochs, n)->Ok_0.0.contains(e) ==> s.claims(
                claimer,
                deposit,
                epochs,
                m,
            )->Ok_0.0.contains(e),
    decreases m,
{
    if n < m {
        lemma_claims_grow(s, claimer, deposit, epochs, n, (m - 1) as nat);
        let before = s.claims(claimer, deposit, epochs, (m - 1) as nat)->Ok_0.0;
        let now = s.claims(claimer, deposit, epochs, m)->Ok_0.0;
        assert forall|e: u64| before.contains(e) implies now.contains(e) by {
            let i = choose|i: int| 0 <= i < before.len() && before[i] == e;
            assert(now[i] == e);
        }
    } else if n > 0 {
        lemma_claims_grow(s, claimer, deposit, epochs, (n - 1) as nat, (n - 1) as nat);
    }
}

/// What was claimed is not claimed again.
proof fn lemma_claimed_again(
    s: EarningsState,
    t: EarningsState,
    claimer: Address,
    deposit: int,
    epochs: Seq<u64>,
    n: nat,
    newly: Seq<u64>,
)
    requires
        n <= epochs.len(),
        s.claims(claimer, deposit, epochs, epochs.len()) == Ok::<(Seq<u64>, int), Error>(
            (newly, s.claims(claimer, deposit, epochs, epochs.len())->Ok_0.1),
        ),
        t == (EarningsState { claimed: model::with_claims(s.claimed, claimer, newly), ..s }),
    ensures
        t.claims(claimer, deposit, epochs, n) == Ok::<(Seq<u64>, int), Error>((Seq::empty(), 0)),
    decreases n,
{
    if n > 0 {
        let e = epochs[n - 1];
        lemma_claimed_again(s, t, claimer, deposit, epochs, (n - 1) as nat, newly);
        model::lemma_with_claims(s.claimed, claimer, newly, claimer, e);
        lemma_claims_grow(s, claimer, deposit, epochs, n, epochs.len());
        lemma_claims_grow(s, claimer, deposit, epochs, (n - 1) as nat, epochs.len());
        let now = s.claims(claimer, deposit, epochs, n)->Ok_0.0;
        if !model::is_claimed(t.claimed, claimer, e) && t.claimable(e) {
            let before = s.claims(claimer, deposit, epochs, (n - 1) as nat)->Ok_0.0;
            if !before.contains(e) && s.share_of(e, deposit) > 0 {
                assert(now.last() == e);
                assert(now[now.len() - 1] == e);
                assert(now.contains(e));
            }
        }
    }
}

/// An epoch that is closed never changes again.
pub proof fn law_closed_epochs_stay(s: EarningsState, env: Context, call: Call, epoch: u64)
    requires
        s.sound(),
        s.admin is Some,
        epoch < s.current_epoch,
    ensures
        s.after(env, call).epochs.contains_key(epoch) == s.epochs.contains_key(epoch),
        s.epochs.contains_key(epoch) ==> s.after(env, call).epochs[epoch] == s.epochs[epoch],
{
    match call {
        Call::Initialize { .. } => {},
        Call::RegisterLp { .. } => {},
        Call::ReceiveRevenue { .. } => {},
        Call::FinalizeEpoch { .. } => {},
        Call::Claim { .. } => {},
    }
}

/// Closing an epoch opens the next one for seven days, once its own time is
/// over.
pub proof fn law_epochs_follow(s: EarningsState, env: Context, total_deposits: i128)
    requires
        s.sound(),
    ensures
        s.finalize_epoch(env, total_deposits) matches Ok((t, epoch, _)) ==> {
            &&& epoch == s.current_epoch
            &&& env.timestamp >= s.epochs[epoch].end_time
            &&& t.current_epoch == epoch + 1
            &&& t.epochs[epoch].finalized
            &&& t.epochs[epoch].staker_snapshot == total_deposits
            &&& t.epochs[t.current_epoch].start_time == env.timestamp
            &&& t.epochs[t.current_epoch].end_time == env.timestamp + EPOCH_DURATION
            &&& !t.epochs[t.current_epoch].finalized
        },
{
}

/// An upgrade is authorised by the DAO that is stored, and keeps what is
/// stored.
pub proof fn law_upgrade(s: EarningsState, new_wasm_hash: WasmHash)
    ensures
        s.upgrade(new_wasm_hash) matches Ok((t, effects)) ==> t == s && effects[0]
            == Effect::RequireAuth(s.dao->0) && s.dao is Some,
{
}

} // verus!
