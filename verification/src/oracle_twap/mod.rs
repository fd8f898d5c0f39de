//! Prices on which several providers agree, and their averages over time.
pub mod laws;
pub mod model;
pub mod outcomes;
pub mod prices;

use crate::arith;
use crate::error::Error;
use crate::oracle_twap::model::OracleState;
use crate::table;
use crate::table::Table;
use crate::types::{Address, Context, Symbol};
use vstd::prelude::*;

verus! {

/// How long a price can be used, in seconds.
pub const MAX_AGE_SECS: u64 = 300;

/// How long the window of an average is where nothing else is set.
pub const TWAP_WINDOW_SECS: u64 = 3_600;

/// How many providers there may be.
pub const MAX_PROVIDERS: u32 = 21;

/// How many observations a price takes where nothing else is set.
pub const MIN_PROVIDERS: u32 = 3;

/// How far a price may move at once, in basis points.
pub const CIRCUIT_BPS: i128 = 2_000;

/// One, in basis points.
pub const PRECISION: i128 = 10_000;

/// `add`.
pub const ADD: u128 = 0x616464;

/// `rem`.
pub const REM: u128 = 0x72656d;

/// What a provider says of a price. Prices have seven decimals.
#[derive(Clone, Copy, PartialEq, Eq, Structural, Debug)]
pub struct PriceObservation {
    pub price: i128,
    pub timestamp: u64,
    pub provider: Address,
}

/// The sum of an asset's prices, each for as long as it held.
#[derive(Clone, Copy, PartialEq, Eq, Structural, Debug)]
pub struct TwapAccumulator {
    pub cumulative_price: i128,
    pub last_price: i128,
    pub last_timestamp: u64,
    pub window_start: u64,
    pub window_cum_start: i128,
}

/// The price of an asset.
#[derive(Clone, Copy, PartialEq, Eq, Structural, Debug)]
pub struct AssetFeed {
    pub latest_price: i128,
    pub latest_ts: u64,
    /// The average that was last computed.
    pub twap_price: i128,
    pub twap_ts: u64,
    pub observation_count: u32,
}

#[derive(Clone, Copy, PartialEq, Eq, Structural, Debug)]
pub struct ProviderEvent {
    pub action: Symbol,
    pub provider: Address,
}

#[derive(Clone, Copy, PartialEq, Eq, Structural, Debug)]
pub struct PriceEvent {
    pub asset: Symbol,
    pub provider: Address,
    pub price: i128,
}

#[derive(Clone, Copy, PartialEq, Eq, Structural, Debug)]
pub struct PriceAggEvent {
    pub asset: Symbol,
    pub median_price: i128,
}

#[derive(Clone, Copy, PartialEq, Eq, Structural, Debug)]
pub struct TwapEvent {
    pub asset: Symbol,
    pub twap_price: i128,
}

/// What a call does outside the contract, in the order in which it does it.
#[derive(Clone, Copy, PartialEq, Eq, Structural, Debug)]
pub enum Effect {
    /// The address must have authorised the call.
    RequireAuth(Address),
    Provider(ProviderEvent),
    Price(PriceEvent),
    Aggregated(PriceAggEvent),
    Twap(TwapEvent),
}

/// The providers and the prices.
pub struct OracleTwap {
    pub admin: Option<Address>,
    pub dao: Option<Address>,
    /// How many providers were ever added.
    pub provider_count: u32,
    /// How long the window of an average is, in seconds.
    pub twap_window: Option<u64>,
    pub min_providers: Option<u32>,
    pub providers: Table<Address, bool>,
    pub provider_list: Table<u32, Address>,
    pub feeds: Table<Symbol, AssetFeed>,
    pub accumulators: Table<Symbol, TwapAccumulator>,
    /// The observations that are not part of a price yet.
    pub pending: Table<Symbol, Vec<PriceObservation>>,
}

impl View for OracleTwap {
    type V = OracleState;

    open spec fn view(&self) -> OracleState {
        OracleState {
            admin: self.admin,
            dao: self.dao,
            provider_count: self.provider_count,
            twap_window: self.twap_window,
            min_providers: self.min_providers,
            providers: self.providers@,
            provider_list: self.provider_list@,
            feeds: self.feeds@,
            accumulators: self.accumulators@,
            pending: table::views(self.pending@),
        }
    }
}

/// What an asset had before an observation.
struct Before {
    asset: Symbol,
    feed: Option<AssetFeed>,
    pending: Option<Vec<PriceObservation>>,
}

/// The records with one as it was.
spec fn put_back<V>(records: Map<Symbol, V>, asset: Symbol, was: Option<V>) -> Map<Symbol, V> {
    match was {
        Some(v) => records.insert(asset, v),
        None => records.remove(asset),
    }
}

impl Before {
    /// The list as it was.
    spec fn list(self) -> Option<Seq<PriceObservation>> {
        match self.pending {
            Some(v) => Some(v@),
            None => None,
        }
    }

    /// A state with the asset as it was.
    spec fn restore(self, s: OracleState) -> OracleState {
        OracleState {
            feeds: put_back(s.feeds, self.asset, self.feed),
            pending: put_back(s.pending, self.asset, self.list()),
            ..s
        }
    }
}

/// A state with the assets as they were, the last one first.
spec fn restored(s: OracleState, log: Seq<Before>) -> OracleState
    decreases log.len(),
{
    if log.len() == 0 {
        s
    } else {
        restored(log.last().restore(s), log.drop_last())
    }
}

/// The seconds from one time to another; none where the other is not later.
fn since(then: u64, now: u64) -> (r: u64)
    ensures
        r == model::since(then, now),
{
    if now >= then {
        now - then
    } else {
        0
    }
}

impl TwapAccumulator {
    /// Brings the accumulator up to date with a new price.
    fn advance(self, price: i128, now: u64) -> (r: Result<TwapAccumulator, Error>)
        ensures
            r == self.advanced(price, now),
    {
        let elapsed: u64 = since(self.last_timestamp, now);
        let mut acc: TwapAccumulator = self;
        if elapsed > 0 {
            let grown: i128 = arith::times(self.last_price, elapsed as i128)?;
            acc.cumulative_price = arith::plus(self.cumulative_price, grown)?;
        }
        acc.last_price = price;
        acc.last_timestamp = now;
        Ok(acc)
    }

    /// The time-weighted price since the window began.
    fn average(self, now: u64, window: u64) -> (r: Result<(TwapAccumulator, i128), Error>)
        ensures
            r == self.averaged(now, window),
    {
        let elapsed: u64 = since(self.window_start, now);
        let twap: i128 = if elapsed == 0 {
            self.last_price
        } else {
            let delta: i128 = arith::minus(self.cumulative_price, self.window_cum_start)?;
            proof {
                arith::lemma_quot_range(delta as int, elapsed as int);
            }
            arith::over(delta, elapsed as i128)?
        };
        let mut acc: TwapAccumulator = self;
        if elapsed >= window {
            acc.window_start = now;
            acc.window_cum_start = self.cumulative_price;
        }
        Ok((acc, twap))
    }
}

impl OracleTwap {
    /// The contract before it is set up.
    pub fn new() -> (r: OracleTwap)
        ensures
            r@ == OracleState::blank(),
    {
        let r = OracleTwap {
            admin: None,
            dao: None,
            provider_count: 0,
            twap_window: None,
            min_providers: None,
            providers: Table::new(),
            provider_list: Table::new(),
            feeds: Table::new(),
            accumulators: Table::new(),
            pending: Table::new(),
        };
        assert(r@ =~= OracleState::blank());
        r
    }

    /// Sets up the oracle. Once. A window of length zero stands for the usual
    /// one.
    pub fn initialize(&mut self, admin: Address, dao: Address, twap_window: u64) -> (r: Result<
        Vec<Effect>,
        Error,
    >)
        ensures
            crate::error::agrees(
                r,
                old(self)@,
                final(self)@,
                old(self)@.initialize(admin, dao, twap_window),
            ),
    {
        if self.admin.is_some() {
            return Err(Error::AlreadyInitialised);
        }
        self.admin = Some(admin);
        self.dao = Some(dao);
        self.provider_count = 0;
        self.twap_window = Some(
            if twap_window == 0 {
                TWAP_WINDOW_SECS
            } else {
                twap_window
            },
        );
        Ok(vec![Effect::RequireAuth(admin)])
    }

    /// Lets a provider report prices.
    pub fn add_provider(&mut self, dao: Address, provider: Address) -> (r: Result<
        Vec<Effect>,
        Error,
    >)
        ensures
            crate::error::agrees(
                r,
                old(self)@,
                final(self)@,
                old(self)@.add_provider(dao, provider),
            ),
    {
        self._require_dao(dao)?;
        if self.provider_count >= MAX_PROVIDERS {
            return Err(Error::MaxProvidersReached);
        }
        if self.providers.contains(&provider) {
            return Err(Error::AlreadyProvider);
        }
        self.providers.insert(provider, true);
        self.provider_list.insert(self.provider_count, provider);
        self.provider_count = self.provider_count + 1;
        Ok(
            vec![
                Effect::RequireAuth(dao),
                Effect::Provider(
                    ProviderEvent { action: Symbol { head: ADD, tail: 0 }, provider },
                ),
            ],
        )
    }

    /// Lets a provider no longer report prices.
    pub fn remove_provider(&mut self, dao: Address, provider: Address) -> (r: Result<
        Vec<Effect>,
        Error,
    >)
        ensures
            crate::error::agrees(
                r,
                old(self)@,
                final(self)@,
                old(self)@.remove_provider(dao, provider),
            ),
    {
        self._require_dao(dao)?;
        if !self.providers.contains(&provider) {
            return Err(Error::NotAProvider);
        }
        self.providers.remove(&provider);
        Ok(
            vec![
                Effect::RequireAuth(dao),
                Effect::Provider(
                    ProviderEvent { action: Symbol { head: REM, tail: 0 }, provider },
                ),
            ],
        )
    }

    /// Sets how many observations a price takes.
    pub fn set_min_providers(&mut self, dao: Address, min_providers: u32) -> (r: Result<
        Vec<Effect>,
        Error,
    >)
        ensures
            crate::error::agrees(
                r,
                old(self)@,
                final(self)@,
                old(self)@.set_min_providers(dao, min_providers),
            ),
    {
        self._require_dao(dao)?;
        self.min_providers = Some(min_providers);
        Ok(vec![Effect::RequireAuth(dao)])
    }

    /// How many observations a price takes.
    pub fn get_min_providers(&self) -> (r: u32)
        ensures
            r == self@.min_count(),
    {
        match self.min_providers {
            Some(n) => n,
            None => MIN_PROVIDERS,
        }
    }

    /// Reports a price. Once enough reports are there, they are turned into
    /// the price of the asset. `host` is where the prices are sorted.
    pub fn submit_price(
        &mut self,
        host: &soroban_sdk::Env,
        env: &Context,
        provider: Address,
        asset: Symbol,
        price: i128,
    ) -> (r: Result<Vec<Effect>, Error>)
        ensures
            crate::error::agrees(
                r,
                old(self)@,
                final(self)@,
                old(self)@.submit_price(*env, provider, asset, price),
            ),
    {
        if !self.providers.contains(&provider) {
            return Err(Error::NotAuthorisedProvider);
        }
        let mut effects: Vec<Effect> = vec![Effect::RequireAuth(provider)];
        self.observe(host, env, provider, asset, price, &mut effects)?;
        Ok(effects)
    }

    /// Reports the prices of several assets, one after the other. Either all
    /// of them count or none does.
    pub fn submit_prices(
        &mut self,
        host: &soroban_sdk::Env,
        env: &Context,
        provider: Address,
        assets: &Vec<Symbol>,
        prices: &Vec<i128>,
    ) -> (r: Result<Vec<Effect>, Error>)
        ensures
            crate::error::agrees(
                r,
                old(self)@,
                final(self)@,
                old(self)@.submit_prices(*env, provider, assets@, prices@),
            ),
    {
        if !self.providers.contains(&provider) {
            return Err(Error::NotAuthorisedProvider);
        }
        if assets.len() != prices.len() {
            return Err(Error::LengthMismatch);
        }
        let mut effects: Vec<Effect> = vec![Effect::RequireAuth(provider)];
        let mut log: Vec<Before> = Vec::new();
        let mut i: usize = 0;
        let ghost first = self@;
        let ghost auth = effects@;
        proof {
            assert(assets@.take(0) =~= Seq::<Symbol>::empty());
            assert(auth + Seq::<Effect>::empty() =~= auth);
        }
        while i < assets.len()
            invariant
                i <= assets@.len(),
                assets@.len() == prices@.len(),
                first == old(self)@,
                first.providers.contains_key(provider),
                first.observe_each(
                    *env,
                    provider,
                    assets@.take(i as int),
                    prices@.take(i as int),
                ) matches Ok((s, then)) && s == self@ && effects@ == auth + then,
                restored(self@, log@) == first,
            decreases assets@.len() - i,
        {
            let ghost mid = self@;
            let ghost done = effects@;
            let asset: Symbol = assets[i];
            let entry: Before = self.before(asset);
            proof {
                let a = assets@.take(i + 1);
                let p = prices@.take(i + 1);
                assert(a.drop_last() =~= assets@.take(i as int));
                assert(p.drop_last() =~= prices@.take(i as int));
                assert(a.last() == asset);
                assert(p.last() == prices@[i as int]);
            }
            match self.observe(host, env, provider, asset, prices[i], &mut effects) {
                Ok(_) => {
                    proof {
                        let then = first.observe_each(
                            *env,
                            provider,
                            assets@.take(i as int),
                            prices@.take(i as int),
                        )->Ok_0.1;
                        let last = mid.observe(
                            *env,
                            provider,
                            asset,
                            prices@[i as int],
                        )->Ok_0.1;
                        assert(done + last =~= auth + (then + last));
                        assert(entry.restore(self@) =~= mid);
                        assert(log@.push(entry).drop_last() =~= log@);
                    }
                    log.push(entry);
                },
                Err(e) => {
                    proof {
                        laws::lemma_failed_part(
                            first,
                            *env,
                            provider,
                            assets@,
                            prices@,
                            i + 1,
                        );
                    }
                    self.roll_back(log);
                    return Err(e);
                },
            }
            i = i + 1;
        }
        proof {
            assert(assets@.take(i as int) =~= assets@);
            assert(prices@.take(i as int) =~= prices@);
        }
        Ok(effects)
    }

    /// Turns the reports on an asset into its price. Anybody may ask for it.
    /// `host` is where the prices are sorted.
    pub fn aggregate(&mut self, host: &soroban_sdk::Env, env: &Context, asset: Symbol) -> (r: Result<
        Vec<Effect>,
        Error,
    >)
        ensures
            crate::error::agrees(r, old(self)@, final(self)@, old(self)@.aggregate(*env, asset)),
    {
        broadcast use table::lemma_views_insert;

        let list: Vec<PriceObservation> = self.pending_list(asset);
        let feed: AssetFeed = self._aggregate(host, env, &list)?;
        self.feeds.insert(asset, feed);
        self.pending.insert(asset, Vec::new());
        Ok(
            vec![
                Effect::Aggregated(PriceAggEvent { asset, median_price: feed.latest_price }),
            ],
        )
    }

    /// Brings the time-weighted price of an asset up to date.
    pub fn update_twap(&mut self, env: &Context, asset: Symbol) -> (r: Result<
        (i128, Vec<Effect>),
        Error,
    >)
        ensures
            crate::error::agrees_on(
                r,
                old(self)@,
                final(self)@,
                old(self)@.update_twap(*env, asset),
            ),
    {
        let feed: AssetFeed = match self.feeds.get(&asset) {
            Some(f) => *f,
            None => return Err(Error::NoPriceFeed),
        };
        let window: u64 = match self.twap_window {
            Some(w) => w,
            None => return Err(Error::NotInitialised),
        };
        let acc: TwapAccumulator = match self.accumulators.get(&asset) {
            Some(a) => *a,
            None => TwapAccumulator {
                cumulative_price: 0,
                last_price: feed.latest_price,
                last_timestamp: env.timestamp,
                window_start: env.timestamp,
                window_cum_start: 0,
            },
        };
        let advanced: TwapAccumulator = acc.advance(feed.latest_price, env.timestamp)?;
        let (rolled, twap) = advanced.average(env.timestamp, window)?;
        self.accumulators.insert(asset, rolled);
        self.feeds.insert(
            asset,
            AssetFeed { twap_price: twap, twap_ts: env.timestamp, ..feed },
        );
        Ok((twap, vec![Effect::Twap(TwapEvent { asset, twap_price: twap })]))
    }

    /// The price of an asset, as long as it is not stale.
    pub fn get_price(&self, env: &Context, asset: Symbol) -> (r: Result<i128, Error>)
        ensures
            r == self@.get_price(*env, asset),
    {
        let feed: AssetFeed = self.get_feed(asset)?;
        if since(feed.latest_ts, env.timestamp) > MAX_AGE_SECS {
            return Err(Error::PriceStale);
        }
        Ok(feed.latest_price)
    }

    /// The time-weighted price of an asset, as long as it is not stale.
    pub fn get_twap(&self, env: &Context, asset: Symbol) -> (r: Result<i128, Error>)
        ensures
            r == self@.get_twap(*env, asset),
    {
        let feed: AssetFeed = self.get_feed(asset)?;
        if since(feed.twap_ts, env.timestamp) > MAX_AGE_SECS * 2 {
            return Err(Error::TwapStale);
        }
        Ok(feed.twap_price)
    }

    /// All that is known of the price of an asset.
    pub fn get_feed(&self, asset: Symbol) -> (r: Result<AssetFeed, Error>)
        ensures
            r == if self@.feeds.contains_key(asset) {
                Ok::<AssetFeed, Error>(self@.feeds[asset])
            } else {
                Err(Error::NoFeed)
            },
    {
        match self.feeds.get(&asset) {
            Some(f) => Ok(*f),
            None => Err(Error::NoFeed),
        }
    }

    /// Whether there is no price of an asset that can be used.
    pub fn is_stale(&self, env: &Context, asset: Symbol) -> (r: bool)
        ensures
            r == self@.is_stale(*env, asset),
    {
        match self.feeds.get(&asset) {
            None => true,
            Some(f) => since(f.latest_ts, env.timestamp) > MAX_AGE_SECS,
        }
    }

    /// Whether an address may report prices.
    pub fn is_provider(&self, addr: Address) -> (r: bool)
        ensures
            r == self@.providers.contains_key(addr),
    {
        self.providers.contains(&addr)
    }

    /// How many providers were ever added.
    pub fn provider_count(&self) -> (r: u32)
        ensures
            r == self@.provider_count,
    {
        self.provider_count
    }

    /// The reports on an asset.
    fn pending_list(&self, asset: Symbol) -> (r: Vec<PriceObservation>)
        ensures
            r@ == self@.pending_of(asset),
    {
        match self.pending.get(&asset) {
            Some(list) => table::copied(list),
            None => Vec::new(),
        }
    }

    /// The price that reports give.
    fn _aggregate(&self, host: &soroban_sdk::Env, env: &Context, list: &Vec<PriceObservation>) -> (r:
        Result<AssetFeed, Error>)
        ensures
            r == if list@.len() < self@.min_count() || list@.len() == 0 {
                Err::<AssetFeed, Error>(Error::InsufficientObservations)
            } else if list@.len() > u32::MAX {
                Err(Error::Arithmetic)
            } else {
                Ok(
                    AssetFeed {
                        latest_price: prices::agreed(prices::prices_of(list@)),
                        latest_ts: env.timestamp,
                        twap_price: prices::agreed(prices::prices_of(list@)),
                        twap_ts: env.timestamp,
                        observation_count: list@.len() as u32,
                    },
                )
            },
    {
        let n: u64 = list.len() as u64;
        if n < self.get_min_providers() as u64 || n == 0 {
            return Err(Error::InsufficientObservations);
        }
        if n > u32::MAX as u64 {
            return Err(Error::Arithmetic);
        }
        let price: i128 = prices::agree(host, list);
        Ok(
            AssetFeed {
                latest_price: price,
                latest_ts: env.timestamp,
                twap_price: price,
                twap_ts: env.timestamp,
                observation_count: n as u32,
            },
        )
    }

    /// Checks that a price does not move too far from the last one.
    fn check_breaker(&self, asset: Symbol, price: i128) -> (r: Result<(), Error>)
        requires
            price > 0,
        ensures
            r == match self@.breaker_error(asset, price) {
                None => Ok::<(), Error>(()),
                Some(e) => Err(e),
            },
    {
        let last: i128 = match self.feeds.get(&asset) {
            None => return Ok(()),
            Some(f) => f.latest_price,
        };
        if last <= 0 {
            return Ok(());
        }
        let distance: i128 = if price >= last {
            price - last
        } else {
            last - price
        };
        let scaled: i128 = arith::times(last, CIRCUIT_BPS)?;
        proof {
            arith::lemma_quot_range(scaled as int, PRECISION as int);
        }
        let furthest: i128 = arith::over(scaled, PRECISION)?;
        if distance > furthest {
            return Err(Error::CircuitBreaker);
        }
        Ok(())
    }

    /// Takes a report in.
    fn observe(
        &mut self,
        host: &soroban_sdk::Env,
        env: &Context,
        provider: Address,
        asset: Symbol,
        price: i128,
        effects: &mut Vec<Effect>,
    ) -> (r: Result<(), Error>)
        ensures
            match old(self)@.observe(*env, provider, asset, price) {
                Err(e) => r == Err::<(), Error>(e) && final(self)@ == old(self)@,
                Ok((next, then)) => r is Ok && final(self)@ == next && final(effects)@
                    == old(effects)@ + then,
            },
    {
        broadcast use table::lemma_views_insert;

        if price <= 0 {
            return Err(Error::PriceNotPositive);
        }
        self.check_breaker(asset, price)?;
        let mut list: Vec<PriceObservation> = self.pending_list(asset);
        if list.len() as u64 >= u32::MAX as u64 {
            return Err(Error::Arithmetic);
        }
        let ghost noted = self@.noted(*env, provider, asset, price);
        list.push(PriceObservation { price, timestamp: env.timestamp, provider });
        let counted: u32 = if self.provider_count <= MAX_PROVIDERS {
            self.provider_count
        } else {
            MAX_PROVIDERS
        };
        let event: Effect = Effect::Price(PriceEvent { asset, provider, price });
        proof {
            assert(noted.pending_of(asset) == list@);
            assert(noted.min_count() == self@.min_count());
        }
        if list.len() as u64 >= (counted / 3 + 1) as u64 {
            let feed: AssetFeed = self._aggregate(host, env, &list)?;
            self.feeds.insert(asset, feed);
            self.pending.insert(asset, Vec::new());
            effects.push(event);
            effects.push(
                Effect::Aggregated(PriceAggEvent { asset, median_price: feed.latest_price }),
            );
            proof {
                let empty = Seq::<PriceObservation>::empty();
                assert(noted.pending.insert(asset, empty) =~= old(self)@.pending.insert(
                    asset,
                    empty,
                ));
                assert(self@ =~= noted.aggregate(*env, asset)->Ok_0.0);
                assert(effects@ =~= old(effects)@ + (seq![event] + noted.aggregate(
                    *env,
                    asset,
                )->Ok_0.1));
            }
        } else {
            self.pending.insert(asset, list);
            effects.push(event);
        }
        Ok(())
    }

    /// What an asset has now.
    fn before(&self, asset: Symbol) -> (r: Before)
        ensures
            r.asset == asset,
            r.feed == if self@.feeds.contains_key(asset) {
                Some(self@.feeds[asset])
            } else {
                None
            },
            r.list() == if self@.pending.contains_key(asset) {
                Some(self@.pending[asset])
            } else {
                None
            },
    {
        let feed: Option<AssetFeed> = match self.feeds.get(&asset) {
            Some(f) => Some(*f),
            None => None,
        };
        let pending: Option<Vec<PriceObservation>> = match self.pending.get(&asset) {
            Some(list) => Some(table::copied(list)),
            None => None,
        };
        Before { asset, feed, pending }
    }

    /// Puts every asset of a log back as it was.
    fn roll_back(&mut self, log: Vec<Before>)
        ensures
            final(self)@ == restored(old(self)@, log@),
    {
        let ghost target = restored(self@, log@);
        let mut left: Vec<Before> = log;
        loop
            invariant
                restored(self@, left@) == target,
            ensures
                self@ == target,
            decreases left@.len(),
        {
            let ghost entries = left@;
            let ghost here = self@;
            match left.pop() {
                None => {
                    break;
                },
                Some(entry) => {
                    self.put_back(entry);
                    proof {
                        assert(entries.drop_last() =~= left@);
                        assert(entries.last() == entry);
                        assert(self@ == entry.restore(here));
                    }
                },
            }
        }
    }

    /// Puts an asset back as it was.
    fn put_back(&mut self, entry: Before)
        ensures
            final(self)@ == entry.restore(old(self)@),
    {
        broadcast use {table::lemma_views_insert, table::lemma_views_remove};

        let ghost was = entry;
        match entry.feed {
            Some(f) => self.feeds.insert(entry.asset, f),
            None => self.feeds.remove(&entry.asset),
        }
        match entry.pending {
            Some(list) => self.pending.insert(entry.asset, list),
            None => self.pending.remove(&entry.asset),
        }
        proof {
            assert(self@ =~= was.restore(old(self)@));
        }
    }

    fn _require_dao(&self, caller: Address) -> (r: Result<(), Error>)
        ensures
            r == match self@.dao_error(caller) {
                None => Ok::<(), Error>(()),
                Some(e) => Err(e),
            },
    {
        match self.dao {
            None => Err(Error::NotInitialised),
            Some(dao) => if caller == dao {
                Ok(())
            } else {
                Err(Error::DaoOnly)
            },
        }
    }
}

} // verus!
