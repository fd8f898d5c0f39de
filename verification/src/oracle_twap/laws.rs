//! What holds of the oracle over several calls.
use crate::arith;
use crate::error;
use crate::error::Error;
use crate::oracle_twap::model;
use crate::oracle_twap::model::{Call, OracleState};
use crate::oracle_twap::prices;
use crate::oracle_twap::{
    Effect, PriceObservation, TwapAccumulator, CIRCUIT_BPS, MAX_AGE_SECS, MAX_PROVIDERS, PRECISION,
};
use crate::types::{Address, Context, Symbol};
use vstd::prelude::*;

verus! {

/// Where the first reports of a batch fail, the batch fails for their reason.
pub proof fn lemma_failed_part(
    s: OracleState,
    env: Context,
    provider: Address,
    assets: Seq<Symbol>,
    prices: Seq<i128>,
    k: int,
)
    requires
        assets.len() == prices.len(),
        0 <= k <= assets.len(),
        s.observe_each(env, provider, assets.take(k), prices.take(k)) is Err,
    ensures
        s.observe_each(env, provider, assets, prices) == s.observe_each(
            env,
            provider,
            assets.take(k),
            prices.take(k),
        ),
    decreases assets.len(),
{
    if k == assets.len() {
        assert(assets.take(k) =~= assets);
        assert(prices.take(k) =~= prices);
    } else {
        assert(assets.drop_last().take(k) =~= assets.take(k));
        assert(prices.drop_last().take(k) =~= prices.take(k));
        lemma_failed_part(s, env, provider, assets.drop_last(), prices.drop_last(), k);
    }
}

/// Settling on a price keeps the oracle sound, and the price is positive.
proof fn lemma_aggregated(s: OracleState, env: Context, asset: Symbol)
    requires
        s.sound(),
        s.aggregate(env, asset) is Ok,
    ensures
        s.aggregate(env, asset)->Ok_0.0.sound(),
{
    let t = s.aggregate(env, asset)->Ok_0.0;
    let list = s.pending_of(asset);
    let ps = prices::prices_of(list);
    assert(s.pending_sound(asset));
    assert forall|i: int| 0 <= i < ps.len() implies 1 <= #[trigger] ps[i] <= i128::MAX by {
        assert(ps[i] == list[i].price);
        assert(list[i].price > 0);
    }
    prices::law_price_within_bounds(ps, 1, i128::MAX as int);
    assert forall|a: Symbol| #[trigger] t.pending.contains_key(a) implies t.pending_sound(a) by {
        if a != asset {
            assert(s.pending_sound(a));
        }
    }
    assert forall|a: Symbol| #[trigger] t.feeds.contains_key(a) implies t.feed_sound(a) by {
        if a != asset {
            assert(s.feed_sound(a));
        }
    }
}

/// A report keeps the oracle sound.
proof fn lemma_observed(
    s: OracleState,
    env: Context,
    provider: Address,
    asset: Symbol,
    price: i128,
)
    requires
        s.sound(),
        s.observe(env, provider, asset, price) is Ok,
    ensures
        s.observe(env, provider, asset, price)->Ok_0.0.sound(),
        s.observe(env, provider, asset, price)->Ok_0.0.providers == s.providers,
{
    let next = s.noted(env, provider, asset, price);
    assert forall|a: Symbol| #[trigger] next.pending.contains_key(a) implies next.pending_sound(
        a,
    ) by {
        if s.pending.contains_key(a) {
            assert(s.pending_sound(a));
        }
        if a == asset {
            let list = s.pending_of(asset);
            assert forall|i: int| 0 <= i < next.pending[a].len() implies (
            #[trigger] next.pending[a][i]).price > 0 by {
                if i < list.len() {
                    assert(next.pending[a][i] == list[i]);
                    assert(s.pending[a][i].price > 0);
                }
            }
        }
    }
    assert forall|a: Symbol| #[trigger] next.feeds.contains_key(a) implies next.feed_sound(a) by {
        assert(s.feed_sound(a));
    }
    assert(next.sound());
    if next.pending_of(asset).len() >= s.quorum() {
        lemma_aggregated(next, env, asset);
    }
}

/// A batch of reports keeps the oracle sound.
proof fn lemma_observed_each(
    s: OracleState,
    env: Context,
    provider: Address,
    assets: Seq<Symbol>,
    prices: Seq<i128>,
)
    requires
        s.sound(),
        s.observe_each(env, provider, assets, prices) is Ok,
    ensures
        s.observe_each(env, provider, assets, prices)->Ok_0.0.sound(),
        s.observe_each(env, provider, assets, prices)->Ok_0.0.providers == s.providers,
    decreases assets.len(),
{
    if assets.len() > 0 {
        lemma_observed_each(s, env, provider, assets.drop_last(), prices.drop_last());
        let mid = s.observe_each(env, provider, assets.drop_last(), prices.drop_last())->Ok_0.0;
        lemma_observed(mid, env, provider, assets.last(), prices.last());
    }
}

/// An accumulator stays sound, and its average is positive.
proof fn lemma_averaged(acc: TwapAccumulator, price: i128, now: u64, window: u64)
    requires
        acc.sound(),
        price > 0,
        acc.advanced(price, now) is Ok,
        acc.advanced(price, now)->Ok_0.averaged(now, window) is Ok,
    ensures
        acc.advanced(price, now)->Ok_0.sound(),
        acc.advanced(price, now)->Ok_0.averaged(now, window)->Ok_0.0.sound(),
        acc.advanced(price, now)->Ok_0.averaged(now, window)->Ok_0.1 > 0,
{
    let elapsed = model::since(acc.last_timestamp, now);
    assert(acc.last_price * elapsed >= elapsed) by (nonlinear_arith)
        requires
            acc.last_price >= 1,
            elapsed >= 0,
    ;
    let next = acc.advanced(price, now)->Ok_0;
    let delta = next.cumulative_price - next.window_cum_start;
    let inside = model::since(next.window_start, now);
    if inside > 0 {
        assert(delta / inside >= 1) by (nonlinear_arith)
            requires
                delta >= inside,
                inside > 0,
        ;
        arith::lemma_quot_range(delta, inside);
    }
}

/// The oracle starts sound.
pub proof fn law_starts_sound()
    ensures
        OracleState::blank().sound(),
{
}

/// Whatever call comes, and whether it is refused or not, there are not more
/// providers than there may be, and every price is positive.
pub proof fn law_stays_sound(s: OracleState, env: Context, call: Call)
    requires
        s.sound(),
    ensures
        s.after(env, call).sound(),
{
    let t = s.after(env, call);
    match call {
        Call::Initialize { .. } => {
            lemma_prices_kept(s, t);
        },
        Call::AddProvider { dao, provider } => {
            assert forall|i: u32| i < t.provider_count implies #[trigger]
                t.provider_list.contains_key(i) by {
                if i < s.provider_count {
                    assert(s.provider_list.contains_key(i));
                }
            }
            lemma_prices_kept(s, t);
        },
        Call::RemoveProvider { .. } => {
            lemma_prices_kept(s, t);
        },
        Call::SetMinProviders { .. } => {
            lemma_prices_kept(s, t);
        },
        Call::SubmitPrice { provider, asset, price } => {
            if s.submit_price(env, provider, asset, price) is Ok {
                lemma_observed(s, env, provider, asset, price);
            }
        },
        Call::SubmitPrices { provider, assets, prices } => {
            if s.submit_prices(env, provider, assets, prices) is Ok {
                lemma_observed_each(s, env, provider, assets, prices);
            }
        },
        Call::Aggregate { asset } => {
            if s.aggregate(env, asset) is Ok {
                lemma_aggregated(s, env, asset);
            }
        },
        Call::UpdateTwap { asset } => {
            if s.update_twap(env, asset) is Ok {
                assert(s.feed_sound(asset));
                let acc = s.accumulator(env, asset);
                lemma_averaged(
                    acc,
                    s.feeds[asset].latest_price,
                    env.timestamp,
                    s.twap_window->0,
                );
                assert forall|a: Symbol| #[trigger] t.feeds.contains_key(a) implies t.feed_sound(
                    a,
                ) by {
                    if a != asset {
                        assert(s.feed_sound(a));
                    }
                }
                assert forall|a: Symbol| #[trigger]
                    t.pending.contains_key(a) implies t.pending_sound(a) by {
                    assert(s.pending_sound(a));
                }
            }
        },
    }
}

/// A state that differs in the providers and settings alone has the prices
/// that it had.
proof fn lemma_prices_kept(s: OracleState, t: OracleState)
    requires
        s.sound(),
        t.pending == s.pending,
        t.feeds == s.feeds,
        t.accumulators == s.accumulators,
    ensures
        forall|asset: Symbol| #[trigger]
            t.pending.contains_key(asset) ==> t.pending_sound(asset),
        forall|asset: Symbol| #[trigger] t.feeds.contains_key(asset) ==> t.feed_sound(asset),
{
    assert forall|asset: Symbol| #[trigger] t.pending.contains_key(asset) implies t.pending_sound(
        asset,
    ) by {
        assert(s.pending_sound(asset));
    }
    assert forall|asset: Symbol| #[trigger] t.feeds.contains_key(asset) implies t.feed_sound(
        asset,
    ) by {
        assert(s.feed_sound(asset));
    }
}

/// Only providers report prices, and each report is authorised.
pub proof fn law_only_providers_report(
    s: OracleState,
    env: Context,
    provider: Address,
    asset: Symbol,
    price: i128,
    assets: Seq<Symbol>,
    prices: Seq<i128>,
)
    ensures
        !s.providers.contains_key(provider) ==> error::refused(
            s.submit_price(env, provider, asset, price),
            Error::NotAuthorisedProvider,
        ) && error::refused(
            s.submit_prices(env, provider, assets, prices),
            Error::NotAuthorisedProvider,
        ),
        s.submit_price(env, provider, asset, price) matches Ok((_, effects)) ==> effects[0]
            == Effect::RequireAuth(provider),
        s.submit_prices(env, provider, assets, prices) matches Ok((_, effects)) ==> effects[0]
            == Effect::RequireAuth(provider),
{
}

/// The circuit breaker: no report moves further than a fifth from the last
/// price.
pub proof fn law_circuit_breaker(
    s: OracleState,
    env: Context,
    provider: Address,
    asset: Symbol,
    price: i128,
)
    requires
        s.sound(),
        s.feeds.contains_key(asset),
    ensures
        s.submit_price(env, provider, asset, price) is Ok ==> {
            let last = s.feeds[asset].latest_price;
            &&& (price - last) * PRECISION <= last * CIRCUIT_BPS
            &&& (last - price) * PRECISION <= last * CIRCUIT_BPS
        },
{
    assert(s.feed_sound(asset));
    let last = s.feeds[asset].latest_price;
    arith::lemma_quot_range(last * CIRCUIT_BPS, PRECISION as int);
}

/// A price takes as many observations as are asked for, and at least one.
pub proof fn law_enough_observations(s: OracleState, env: Context, asset: Symbol)
    requires
        s.pending_of(asset).len() < s.min_count() || s.pending_of(asset).len() == 0,
    ensures
        error::refused(s.aggregate(env, asset), Error::InsufficientObservations),
{
}

/// Once the oracle settled on a price, the price can be read, the average
/// starts with it, and the observations are used up.
pub proof fn law_settled_price(s: OracleState, env: Context, asset: Symbol)
    ensures
        s.aggregate(env, asset) matches Ok((t, _)) ==> {
            let price = prices::agreed(prices::prices_of(s.pending_of(asset)));
            &&& t.get_price(env, asset) == Ok::<i128, Error>(price)
            &&& t.get_twap(env, asset) == Ok::<i128, Error>(price)
            &&& !t.is_stale(env, asset)
            &&& t.pending_of(asset) == Seq::<PriceObservation>::empty()
            &&& t.feeds[asset].observation_count == s.pending_of(asset).len()
        },
{
}

/// The staleness guard: a price is refused exactly when it is stale, and it
/// is stale once it is older than it may be.
pub proof fn law_stale_prices(s: OracleState, env: Context, asset: Symbol)
    ensures
        s.is_stale(env, asset) == (s.get_price(env, asset) is Err),
        s.feeds.contains_key(asset) ==> s.is_stale(env, asset) == (env.timestamp
            > s.feeds[asset].latest_ts + MAX_AGE_SECS),
        s.get_twap(env, asset) is Ok ==> env.timestamp <= s.feeds[asset].twap_ts + 2 * MAX_AGE_SECS,
{
}

/// A batch of reports does what the reports do one after the other.
pub proof fn law_batch_is_each_report(
    s: OracleState,
    env: Context,
    provider: Address,
    assets: Seq<Symbol>,
    prices: Seq<i128>,
    asset: Symbol,
    price: i128,
)
    requires
        s.sound(),
        assets.len() == prices.len(),
    ensures
        match s.submit_prices(env, provider, assets, prices) {
            Err(e) => error::refused(
                s.submit_prices(env, provider, assets.push(asset), prices.push(price)),
                e,
            ),
            Ok((mid, _)) => match mid.submit_price(env, provider, asset, price) {
                Err(e) => error::refused(
                    s.submit_prices(env, provider, assets.push(asset), prices.push(price)),
                    e,
                ),
                Ok((t, _)) => s.submit_prices(
                    env,
                    provider,
                    assets.push(asset),
                    prices.push(price),
                ) matches Ok((u, _)) && u == t,
            },
        },
        s.submit_prices(
            env,
            provider,
            Seq::<Symbol>::empty(),
            Seq::<i128>::empty(),
        ) matches Ok((t, _)) ==> t == s,
{
    assert(assets.push(asset).drop_last() =~= assets);
    assert(prices.push(price).drop_last() =~= prices);
    if s.observe_each(env, provider, assets, prices) is Ok {
        lemma_observed_each(s, env, provider, assets, prices);
    }
}

/// Assets and prices come in pairs.
pub proof fn law_batch_lengths(
    s: OracleState,
    env: Context,
    provider: Address,
    assets: Seq<Symbol>,
    prices: Seq<i128>,
)
    requires
        s.providers.contains_key(provider),
        assets.len() != prices.len(),
    ensures
        error::refused(s.submit_prices(env, provider, assets, prices), Error::LengthMismatch),
{
}

/// The average of a price that stayed the same is that price, however much time
/// passed.
pub proof fn law_constant_average(acc: TwapAccumulator, now: u64, window: u64)
    requires
        acc.last_price > 0,
        acc.window_start == acc.last_timestamp,
        acc.window_cum_start == acc.cumulative_price,
    ensures
        acc.advanced(acc.last_price, now) matches Ok(next) ==> (next.averaged(
            now,
            window,
        ) matches Ok((_, twap)) ==> twap == acc.last_price),
{
    let elapsed = model::since(acc.last_timestamp, now);
    let p = acc.last_price as int;
    if elapsed > 0 {
        assert(p * elapsed >= 0 && (p * elapsed) / elapsed == p) by (nonlinear_arith)
            requires
                p > 0,
                elapsed > 0,
        ;
    }
}

/// The time-weighted average lies between any bounds on the prices that the
/// window holds, call after call, however much time passed. Time does not run
/// backwards.
pub proof fn law_average_within_bounds(
    s: OracleState,
    env: Context,
    asset: Symbol,
    low: int,
    high: int,
)
    requires
        s.sound(),
        0 < low,
        s.feeds.contains_key(asset) ==> low <= s.feeds[asset].latest_price <= high,
        s.accumulators.contains_key(asset) ==> s.accumulators[asset].within(low, high)
            && s.accumulators[asset].last_timestamp <= env.timestamp,
    ensures
        s.update_twap(env, asset) matches Ok((t, twap, _)) ==> {
            &&& t.accumulators[asset].within(low, high)
            &&& t.accumulators[asset].last_timestamp == env.timestamp
            &&& low <= twap <= high
        },
{
    if s.update_twap(env, asset) is Ok {
        let acc = s.accumulator(env, asset);
        let now = env.timestamp;
        let next = acc.advanced(s.feeds[asset].latest_price, now)->Ok_0;
        let before = acc.last_timestamp - acc.window_start;
        let elapsed = model::since(acc.last_timestamp, now);
        let seconds = before + elapsed;
        let held = acc.cumulative_price - acc.window_cum_start;
        let delta = next.cumulative_price - next.window_cum_start;
        let price = acc.last_price as int;
        assert(acc.within(low, high)) by {
            if !s.accumulators.contains_key(asset) {
                assert(low * 0 == 0 && high * 0 == 0);
            }
        }
        assert(elapsed == 0 ==> price * elapsed == 0) by (nonlinear_arith);
        assert(low * seconds <= held + price * elapsed <= high * seconds) by (nonlinear_arith)
            requires
                low * before <= held <= high * before,
                low <= price <= high,
                elapsed >= 0,
                seconds == before + elapsed,
        ;
        assert(delta == held + price * elapsed);
        if seconds > 0 {
            assert(delta >= 0 && low <= delta / seconds <= high) by (nonlinear_arith)
                requires
                    0 < low,
                    seconds > 0,
                    low * seconds <= delta <= high * seconds,
            ;
        }
        assert(low * 0 == 0 && high * 0 == 0);
    }
}

/// A window that is over starts anew, with what is accumulated so far left
/// out.
pub proof fn law_window_rolls(acc: TwapAccumulator, now: u64, window: u64)
    requires
        acc.window_start + window <= now,
    ensures
        acc.averaged(now, window) matches Ok((next, _)) ==> next.window_start == now
            && next.window_cum_start == next.cumulative_price,
{
}

/// The DAO votes providers in and out, and nobody else does.
pub proof fn law_providers(s: OracleState, env: Context, call: Call, addr: Address)
    requires
        s.sound(),
        s.dao is Some,
    ensures
        ({
            let t = s.after(env, call);
            &&& t.dao == s.dao && t.admin == s.admin && t.twap_window == s.twap_window
            &&& t.provider_count <= MAX_PROVIDERS
            &&& t.providers.contains_key(addr) && !s.providers.contains_key(addr) ==> (
            call matches Call::AddProvider { dao, provider } && s.dao == Some(dao) && provider
                == addr)
            &&& s.providers.contains_key(addr) && !t.providers.contains_key(addr) ==> (
            call matches Call::RemoveProvider { dao, provider } && s.dao == Some(dao) && provider
                == addr)
            &&& t.min_providers != s.min_providers ==> (call matches Call::SetMinProviders {
                dao,
                ..
            } && s.dao == Some(dao))
        }),
{
    law_stays_sound(s, env, call);
    match call {
        Call::Initialize { .. } => {},
        Call::AddProvider { .. } => {},
        Call::RemoveProvider { .. } => {},
        Call::SetMinProviders { .. } => {},
        Call::SubmitPrice { .. } => {},
        Call::SubmitPrices { provider, assets, prices } => {
            if s.submit_prices(env, provider, assets, prices) is Ok {
                lemma_settings_kept(s, env, provider, assets, prices);
            }
        },
        Call::Aggregate { .. } => {},
        Call::UpdateTwap { .. } => {},
    }
}

/// Reports change no setting and no provider.
proof fn lemma_settings_kept(
    s: OracleState,
    env: Context,
    provider: Address,
    assets: Seq<Symbol>,
    prices: Seq<i128>,
)
    requires
        s.observe_each(env, provider, assets, prices) is Ok,
    ensures
        ({
            let t = s.observe_each(env, provider, assets, prices)->Ok_0.0;
            &&& t.dao == s.dao && t.admin == s.admin && t.twap_window == s.twap_window
            &&& t.providers == s.providers
            &&& t.min_providers == s.min_providers
        }),
    decreases assets.len(),
{
    if assets.len() > 0 {
        lemma_settings_kept(s, env, provider, assets.drop_last(), prices.drop_last());
    }
}

/// A provider that was voted in and out again is none, and can be voted in
/// again only while there is room.
pub proof fn law_voted_out(s: OracleState, dao: Address, provider: Address)
    ensures
        s.add_provider(dao, provider) matches Ok((t, _)) ==> (t.remove_provider(
            dao,
            provider,
        ) matches Ok((u, _)) && u.providers == s.providers && u.provider_count == s.provider_count
            + 1),
{
    if s.add_provider(dao, provider) is Ok {
        assert(s.providers.insert(provider, true).remove(provider) =~= s.providers);
    }
}

} // verus!
