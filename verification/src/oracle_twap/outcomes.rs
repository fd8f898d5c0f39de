//! What the calls on the oracle give and leave, told from the prices and times
//! that it holds.
use crate::arith;
use crate::error::Error;
use crate::oracle_twap::model::OracleState;
use crate::oracle_twap::prices;
use crate::oracle_twap::{
    AssetFeed, Effect, PriceAggEvent, PriceEvent, PriceObservation, ProviderEvent, TwapEvent,
};
use crate::types::{Address, Context, Symbol};
use vstd::prelude::*;

verus! {

/// A price is the middle one of prices in order; where their number is even, it
/// lies halfway between the two in the middle, rounded down.
pub open spec fn in_the_middle(price: int, sorted: Seq<i128>) -> bool {
    let n = sorted.len() as int;
    if n % 2 == 1 {
        price == sorted[n / 2]
    } else {
        2 * price <= sorted[n / 2 - 1] + sorted[n / 2] < 2 * (price + 1)
    }
}

/// The observations that wait for a price.
pub open spec fn waiting(s: OracleState, asset: Symbol) -> Seq<PriceObservation> {
    if s.pending.contains_key(asset) {
        s.pending[asset]
    } else {
        Seq::empty()
    }
}

/// How many observations a price takes: what the DAO set, or three.
pub open spec fn least(s: OracleState) -> int {
    match s.min_providers {
        Some(n) => n as int,
        None => 3,
    }
}

/// A time-weighted update: the last price counts for the seconds since the last
/// update. The average is what was counted since the window began over the
/// seconds since then, rounded down; right at its start it is the price itself. A
/// window that is as old as the one that was set begins anew; a younger one goes
/// on. So no average spans more than the window that was set and the gap since
/// the last update.
pub proof fn law_update_twap(s: OracleState, env: Context, asset: Symbol)
    requires
        s.sound(),
        s.accumulators.contains_key(asset) ==> s.accumulators[asset].window_start
            <= s.accumulators[asset].last_timestamp <= env.timestamp,
    ensures
        s.update_twap(env, asset) matches Ok((t, average, effects)) ==> {
            let feed = s.feeds[asset];
            let known = s.accumulators.contains_key(asset);
            let was = s.accumulators[asset];
            let new = t.accumulators[asset];
            let now = env.timestamp;
            let begun = if known {
                was.window_start
            } else {
                now
            };
            let counted = if known {
                was.cumulative_price + was.last_price * (now - was.last_timestamp)
            } else {
                0
            };
            let before = if known {
                was.window_cum_start as int
            } else {
                0
            };
            &&& s.feeds.contains_key(asset)
            &&& s.twap_window matches Some(window) && {
                &&& now - begun >= window ==> new.window_start == now && new.window_cum_start
                    == new.cumulative_price
                &&& now - begun < window ==> new.window_start == begun && new.window_cum_start
                    == before
            }
            &&& new.cumulative_price == counted
            &&& new.last_price == feed.latest_price
            &&& new.last_timestamp == now
            &&& now > begun ==> average * (now - begun) <= counted - before < (average + 1) * (now
                - begun)
            &&& now == begun ==> average == feed.latest_price
            &&& t == (OracleState {
                accumulators: s.accumulators.insert(asset, new),
                feeds: s.feeds.insert(
                    asset,
                    AssetFeed { twap_price: average, twap_ts: now, ..feed },
                ),
                ..s
            })
            &&& effects == seq![Effect::Twap(TwapEvent { asset, twap_price: average })]
        },
        s.feeds.contains_key(asset) && s.dao is Some && (s.accumulators.contains_key(asset) ==> {
            let was = s.accumulators[asset];
            let more = was.last_price * (env.timestamp - was.last_timestamp);
            arith::fits(more) && arith::fits(was.cumulative_price + more) && arith::fits(
                was.cumulative_price + more - was.window_cum_start,
            )
        }) ==> s.update_twap(env, asset) is Ok,
{
    if s.feeds.contains_key(asset) && s.dao is Some {
        let acc = s.accumulator(env, asset);
        let elapsed = env.timestamp - acc.last_timestamp;
        assert(s.accumulators.contains_key(asset) ==> acc.sound());
        assert(acc.last_price * 0 == 0);
        assert(acc.last_price * elapsed >= 0) by (nonlinear_arith)
            requires
                acc.last_price >= 0,
                elapsed >= 0,
        ;
        let delta = acc.cumulative_price + acc.last_price * elapsed - acc.window_cum_start;
        let span = env.timestamp - acc.window_start;
        if span > 0 {
            arith::lemma_rounded_down(0, delta, span);
        }
    }
}

/// Settling on a price: it takes as many observations as were asked for, and at
/// least one. The price is the middle one of those reported; the observations
/// are used up, and nothing else changes.
pub proof fn law_aggregate(s: OracleState, env: Context, asset: Symbol, sorted: Seq<i128>)
    requires
        s.sound(),
        sorted.to_multiset() == waiting(s, asset).map_values(
            |o: PriceObservation| o.price,
        ).to_multiset(),
        forall|i: int, j: int| 0 <= i <= j < sorted.len() ==> sorted[i] <= sorted[j],
    ensures
        s.aggregate(env, asset) is Ok <==> {
            &&& waiting(s, asset).len() >= least(s)
            &&& 0 < waiting(s, asset).len() <= u32::MAX
        },
        s.aggregate(env, asset) matches Ok((t, effects)) ==> {
            let feed = t.feeds[asset];
            &&& in_the_middle(feed.latest_price as int, sorted)
            &&& feed.twap_price == feed.latest_price
            &&& feed.latest_ts == env.timestamp && feed.twap_ts == env.timestamp
            &&& feed.observation_count == waiting(s, asset).len()
            &&& waiting(t, asset).len() == 0
            &&& t == (OracleState {
                feeds: s.feeds.insert(asset, feed),
                pending: s.pending.insert(asset, Seq::empty()),
                ..s
            })
            &&& effects == seq![
                Effect::Aggregated(PriceAggEvent { asset, median_price: feed.latest_price }),
            ]
        },
{
    broadcast use vstd::seq_lib::group_to_multiset_ensures;

    let list = waiting(s, asset);
    let all = prices::prices_of(list);
    assert(all =~= list.map_values(|o: PriceObservation| o.price));
    prices::lemma_sorted(all, sorted);
    prices::lemma_ascending(all);
    assert(sorted.len() == list.len());
    if s.aggregate(env, asset) is Ok {
        let n = all.len() as int;
        let cut = n / 4;
        let kept = prices::middle(all);
        assert(kept.len() == n - 2 * cut);
        assert(kept[kept.len() as int / 2] == sorted[n / 2]);
        if n % 2 == 0 {
            assert(kept[kept.len() as int / 2 - 1] == sorted[n / 2 - 1]);
            lemma_positive(s, asset, sorted);
        }
    }
}

/// Prices in order are as positive as they were out of order.
proof fn lemma_positive(s: OracleState, asset: Symbol, sorted: Seq<i128>)
    requires
        s.sound(),
        sorted.to_multiset() == waiting(s, asset).map_values(
            |o: PriceObservation| o.price,
        ).to_multiset(),
    ensures
        forall|i: int| 0 <= i < sorted.len() ==> #[trigger] sorted[i] > 0,
{
    broadcast use vstd::seq_lib::group_to_multiset_ensures;

    let list = waiting(s, asset);
    let all = list.map_values(|o: PriceObservation| o.price);
    assert forall|i: int| 0 <= i < sorted.len() implies #[trigger] sorted[i] > 0 by {
        assert(sorted.contains(sorted[i]));
        assert(sorted.to_multiset().count(sorted[i]) > 0);
        assert(all.to_multiset().count(sorted[i]) > 0);
        assert(all.contains(sorted[i]));
        let k = choose|k: int| 0 <= k < all.len() && all[k] == sorted[i];
        assert(all[k] == list[k].price);
        assert(s.pending_sound(asset));
    }
}

/// A report: a provider's price is noted where it is positive and no further
/// from the last price than a fifth of it. Once a third of the providers and one
/// more reported, the oracle settles on a price; until then the report waits.
pub proof fn law_submit_price(
    s: OracleState,
    env: Context,
    provider: Address,
    asset: Symbol,
    price: i128,
)
    requires
        s.sound(),
    ensures
        ({
            let noted = OracleState {
                pending: s.pending.insert(
                    asset,
                    waiting(s, asset).push(
                        PriceObservation { price, timestamp: env.timestamp, provider },
                    ),
                ),
                ..s
            };
            let last = s.feeds[asset].latest_price;
            let fair = {
                &&& s.providers.contains_key(provider)
                &&& price > 0
                &&& s.feeds.contains_key(asset) ==> {
                    &&& last * 2_000 <= i128::MAX
                    &&& (price - last) * 5 <= last
                    &&& (last - price) * 5 <= last
                }
                &&& waiting(s, asset).len() < u32::MAX
            };
            let enough = waiting(s, asset).len() + 1 >= s.provider_count / 3 + 1;
            let report = seq![
                Effect::RequireAuth(provider),
                Effect::Price(PriceEvent { asset, provider, price }),
            ];
            &&& !fair ==> s.submit_price(env, provider, asset, price) is Err
            &&& fair && !enough ==> s.submit_price(env, provider, asset, price) == Ok::<
                (OracleState, Seq<Effect>),
                Error,
            >((noted, report))
            &&& fair && enough ==> match noted.aggregate(env, asset) {
                Err(e) => s.submit_price(env, provider, asset, price) == Err::<
                    (OracleState, Seq<Effect>),
                    Error,
                >(e),
                Ok((t, effects)) => s.submit_price(env, provider, asset, price) == Ok::<
                    (OracleState, Seq<Effect>),
                    Error,
                >((t, report + effects)),
            }
        }),
{
    if s.feeds.contains_key(asset) {
        assert(s.feed_sound(asset));
        arith::lemma_quot_range(s.feeds[asset].latest_price * 2_000, 10_000);
    }
    let noted = s.noted(env, provider, asset, price);
    assert(noted.pending[asset] == waiting(s, asset).push(
        PriceObservation { price, timestamp: env.timestamp, provider },
    ));
    match noted.aggregate(env, asset) {
        Ok((t, effects)) => {
            let event = Effect::Price(PriceEvent { asset, provider, price });
            assert(seq![Effect::RequireAuth(provider)] + (seq![event] + effects) =~= seq![
                Effect::RequireAuth(provider),
                event,
            ] + effects);
        },
        Err(_) => {},
    }
    assert(seq![Effect::RequireAuth(provider)] + seq![
        Effect::Price(PriceEvent { asset, provider, price }),
    ] =~= seq![
        Effect::RequireAuth(provider),
        Effect::Price(PriceEvent { asset, provider, price }),
    ]);
}

/// A batch has the effects of its reports, one after the other, with the
/// provider's word once.
pub proof fn law_batch_effects(
    s: OracleState,
    env: Context,
    provider: Address,
    assets: Seq<Symbol>,
    prices: Seq<i128>,
    asset: Symbol,
    price: i128,
)
    requires
        assets.len() == prices.len(),
    ensures
        s.submit_prices(env, provider, assets, prices) matches Ok((mid, first)) ==> (
        mid.submit_price(env, provider, asset, price) matches Ok((_, then)) ==> (s.submit_prices(
            env,
            provider,
            assets.push(asset),
            prices.push(price),
        ) matches Ok((_, both)) ==> both == first + then.skip(1))),
        s.providers.contains_key(provider) ==> s.submit_prices(
            env,
            provider,
            Seq::<Symbol>::empty(),
            Seq::<i128>::empty(),
        ) == Ok::<(OracleState, Seq<Effect>), Error>((s, seq![Effect::RequireAuth(provider)])),
{
    assert(assets.push(asset).drop_last() =~= assets);
    assert(prices.push(price).drop_last() =~= prices);
    if s.submit_prices(env, provider, assets, prices) is Ok {
        let (mid, first) = s.submit_prices(env, provider, assets, prices)->Ok_0;
        if mid.submit_price(env, provider, asset, price) is Ok && s.submit_prices(
            env,
            provider,
            assets.push(asset),
            prices.push(price),
        ) is Ok {
            let then = mid.submit_price(env, provider, asset, price)->Ok_0.1;
            let both = s.submit_prices(
                env,
                provider,
                assets.push(asset),
                prices.push(price),
            )->Ok_0.1;
            assert(both =~= first + then.skip(1));
        }
    }
    assert(seq![Effect::RequireAuth(provider)] + Seq::<Effect>::empty() =~= seq![
        Effect::RequireAuth(provider),
    ]);
}

/// The providers: the DAO adds them up to twenty-one and removes them, and says
/// how many observations a price takes. A place that was given is not given
/// again.
pub proof fn law_provider_calls(
    s: OracleState,
    dao: Address,
    provider: Address,
    min_providers: u32,
)
    ensures
        s.add_provider(dao, provider) is Ok <==> s.dao == Some(dao) && s.provider_count < 21
            && !s.providers.contains_key(provider),
        s.add_provider(dao, provider) matches Ok((t, effects)) ==> {
            &&& t.providers == s.providers.insert(provider, true)
            &&& t.provider_count == s.provider_count + 1
            &&& t.provider_list == s.provider_list.insert(s.provider_count, provider)
            &&& t == (OracleState {
                providers: t.providers,
                provider_count: t.provider_count,
                provider_list: t.provider_list,
                ..s
            })
            &&& effects == seq![
                Effect::RequireAuth(dao),
                Effect::Provider(
                    ProviderEvent { action: Symbol { head: 0x616464, tail: 0 }, provider },
                ),
            ]
        },
        s.remove_provider(dao, provider) is Ok <==> s.dao == Some(dao) && s.providers.contains_key(
            provider,
        ),
        s.remove_provider(dao, provider) matches Ok((t, effects)) ==> {
            &&& t == (OracleState { providers: s.providers.remove(provider), ..s })
            &&& effects == seq![
                Effect::RequireAuth(dao),
                Effect::Provider(
                    ProviderEvent { action: Symbol { head: 0x72656d, tail: 0 }, provider },
                ),
            ]
        },
        s.set_min_providers(dao, min_providers) is Ok <==> s.dao == Some(dao),
        s.set_min_providers(dao, min_providers) matches Ok((t, effects)) ==> t == (OracleState {
            min_providers: Some(min_providers),
            ..s
        }) && effects == seq![Effect::RequireAuth(dao)],
        s.min_count() == least(s),
{
}

/// The oracle is set up once, with the window that was asked for, or one of an
/// hour where none was.
pub proof fn law_setup(s: OracleState, admin: Address, dao: Address, window: u64)
    ensures
        s.initialize(admin, dao, window) is Ok <==> s.admin is None,
        s.initialize(admin, dao, window) matches Ok((t, effects)) ==> {
            &&& t.twap_window == Some(
                if window == 0 {
                    3_600
                } else {
                    window
                },
            )
            &&& t == (OracleState {
                admin: Some(admin),
                dao: Some(dao),
                provider_count: 0,
                twap_window: t.twap_window,
                ..s
            })
            &&& effects == seq![Effect::RequireAuth(admin)]
        },
{
}

/// Reading: a price can be read for five minutes, an average for ten, and they
/// are those on record.
pub proof fn law_reads(s: OracleState, env: Context, asset: Symbol)
    ensures
        s.get_price(env, asset) is Ok <==> s.feeds.contains_key(asset) && env.timestamp
            <= s.feeds[asset].latest_ts + 300,
        s.get_price(env, asset) matches Ok(price) ==> price == s.feeds[asset].latest_price,
        s.get_twap(env, asset) is Ok <==> s.feeds.contains_key(asset) && env.timestamp
            <= s.feeds[asset].twap_ts + 600,
        s.get_twap(env, asset) matches Ok(price) ==> price == s.feeds[asset].twap_price,
        s.is_stale(env, asset) <==> !(s.feeds.contains_key(asset) && env.timestamp
            <= s.feeds[asset].latest_ts + 300),
{
}

/// What is refused, and why: the first of the reasons counts.
pub proof fn law_refusals(
    s: OracleState,
    env: Context,
    dao: Address,
    provider: Address,
    asset: Symbol,
    price: i128,
)
    requires
        s.sound(),
    ensures
        ({
            let last = s.feeds[asset].latest_price;
            let step = s.submit_price(env, provider, asset, price);
            &&& !s.providers.contains_key(provider) ==> (step matches Err(e) && e
                == Error::NotAuthorisedProvider)
            &&& s.providers.contains_key(provider) && price <= 0 ==> (step matches Err(e) && e
                == Error::PriceNotPositive)
            &&& s.providers.contains_key(provider) && price > 0 && s.feeds.contains_key(asset)
                && last * 2_000 <= i128::MAX && ((price - last) * 5 > last || (last - price) * 5
                > last) ==> (step matches Err(e) && e == Error::CircuitBreaker)
        }),
        waiting(s, asset).len() < least(s) || waiting(s, asset).len() == 0 ==> (s.aggregate(
            env,
            asset,
        ) matches Err(e) && e == Error::InsufficientObservations),
        !s.feeds.contains_key(asset) ==> {
            &&& s.update_twap(env, asset) matches Err(e) && e == Error::NoPriceFeed
            &&& s.get_price(env, asset) == Err::<i128, Error>(Error::NoFeed)
            &&& s.get_twap(env, asset) == Err::<i128, Error>(Error::NoFeed)
        },
        s.feeds.contains_key(asset) && env.timestamp > s.feeds[asset].latest_ts + 300
            ==> s.get_price(env, asset) == Err::<i128, Error>(Error::PriceStale),
        s.feeds.contains_key(asset) && env.timestamp > s.feeds[asset].twap_ts + 600 ==> s.get_twap(
            env,
            asset,
        ) == Err::<i128, Error>(Error::TwapStale),
        s.dao == Some(dao) ==> {
            &&& s.add_provider(dao, provider) matches Err(e) ==> e == (if s.provider_count >= 21 {
                Error::MaxProvidersReached
            } else {
                Error::AlreadyProvider
            })
            &&& s.remove_provider(dao, provider) matches Err(e) ==> e == Error::NotAProvider
        },
        s.dao is Some && s.dao != Some(dao) ==> {
            &&& s.add_provider(dao, provider) matches Err(e) && e == Error::DaoOnly
            &&& s.remove_provider(dao, provider) matches Err(e) && e == Error::DaoOnly
            &&& s.set_min_providers(dao, 0) matches Err(e) && e == Error::DaoOnly
        },
{
    if s.feeds.contains_key(asset) {
        assert(s.feed_sound(asset));
        arith::lemma_quot_range(s.feeds[asset].latest_price * 2_000, 10_000);
    }
}

} // verus!
