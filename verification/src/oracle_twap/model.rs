//! What each call on the oracle does to it.
use crate::arith;
use crate::error;
use crate::error::Error;
use crate::oracle_twap::prices;
use crate::oracle_twap::{
    AssetFeed, Effect, PriceAggEvent, PriceEvent, PriceObservation, ProviderEvent, TwapAccumulator,
    TwapEvent, ADD, CIRCUIT_BPS, MAX_AGE_SECS, MAX_PROVIDERS, MIN_PROVIDERS, PRECISION, REM,
    TWAP_WINDOW_SECS,
};
use crate::types::{Address, Context, Symbol};
use vstd::prelude::*;

verus! {

/// The state of the contract.
#[verifier::ext_equal]
pub struct OracleState {
    pub admin: Option<Address>,
    pub dao: Option<Address>,
    pub provider_count: u32,
    pub twap_window: Option<u64>,
    pub min_providers: Option<u32>,
    pub providers: Map<Address, bool>,
    pub provider_list: Map<u32, Address>,
    pub feeds: Map<Symbol, AssetFeed>,
    pub accumulators: Map<Symbol, TwapAccumulator>,
    pub pending: Map<Symbol, Seq<PriceObservation>>,
}

/// The seconds from one time to another; none where the other is not later.
pub open spec fn since(then: u64, now: u64) -> int {
    if now >= then {
        now - then
    } else {
        0
    }
}

impl TwapAccumulator {
    /// The accumulator that starts with a price.
    pub open spec fn fresh(price: i128, now: u64) -> TwapAccumulator {
        TwapAccumulator {
            cumulative_price: 0,
            last_price: price,
            last_timestamp: now,
            window_start: now,
            window_cum_start: 0,
        }
    }

    /// The accumulator brought up to date with a new price.
    pub open spec fn advanced(self, price: i128, now: u64) -> Result<TwapAccumulator, Error> {
        let elapsed = since(self.last_timestamp, now);
        let cumulative = self.cumulative_price + self.last_price * elapsed;
        if elapsed > 0 && (!arith::fits(self.last_price * elapsed) || !arith::fits(cumulative)) {
            Err(Error::Arithmetic)
        } else {
            Ok(
                TwapAccumulator {
                    cumulative_price: if elapsed > 0 {
                        cumulative as i128
                    } else {
                        self.cumulative_price
                    },
                    last_price: price,
                    last_timestamp: now,
                    ..self
                },
            )
        }
    }

    /// The time-weighted price since the window began, and the accumulator,
    /// whose window starts anew once it is over.
    pub open spec fn averaged(self, now: u64, window: u64) -> Result<(TwapAccumulator, i128), Error> {
        let elapsed = since(self.window_start, now);
        let delta = self.cumulative_price - self.window_cum_start;
        let rolled = if elapsed >= window {
            TwapAccumulator {
                window_start: now,
                window_cum_start: self.cumulative_price,
                ..self
            }
        } else {
            self
        };
        if elapsed == 0 {
            Ok((rolled, self.last_price))
        } else if !arith::fits(delta) {
            Err(Error::Arithmetic)
        } else {
            Ok((rolled, arith::quot(delta, elapsed) as i128))
        }
    }
}

impl OracleState {
    /// The contract before it is set up.
    pub open spec fn blank() -> OracleState {
        OracleState {
            admin: None,
            dao: None,
            provider_count: 0,
            twap_window: None,
            min_providers: None,
            providers: Map::empty(),
            provider_list: Map::empty(),
            feeds: Map::empty(),
            accumulators: Map::empty(),
            pending: Map::empty(),
        }
    }

    pub open spec fn dao_error(self, caller: Address) -> Option<Error> {
        match self.dao {
            None => Some(Error::NotInitialised),
            Some(dao) => if caller == dao {
                None
            } else {
                Some(Error::DaoOnly)
            },
        }
    }

    pub open spec fn pending_of(self, asset: Symbol) -> Seq<PriceObservation> {
        if self.pending.contains_key(asset) {
            self.pending[asset]
        } else {
            Seq::empty()
        }
    }

    /// How many observations a price takes.
    pub open spec fn min_count(self) -> u32 {
        match self.min_providers {
            Some(n) => n,
            None => MIN_PROVIDERS,
        }
    }

    // ── Providers ─────────────────────────────────────────────────

    pub open spec fn initialize(self, admin: Address, dao: Address, twap_window: u64) -> Result<
        (Self, Seq<Effect>),
        Error,
    > {
        if self.admin is Some {
            Err(Error::AlreadyInitialised)
        } else {
            Ok(
                (
                    OracleState {
                        admin: Some(admin),
                        dao: Some(dao),
                        provider_count: 0,
                        twap_window: Some(
                            if twap_window == 0 {
                                TWAP_WINDOW_SECS
                            } else {
                                twap_window
                            },
                        ),
                        ..self
                    },
                    seq![Effect::RequireAuth(admin)],
                ),
            )
        }
    }

    pub open spec fn add_provider(self, dao: Address, provider: Address) -> Result<
        (Self, Seq<Effect>),
        Error,
    > {
        match self.dao_error(dao) {
            Some(e) => Err(e),
            None => if self.provider_count >= MAX_PROVIDERS {
                Err(Error::MaxProvidersReached)
            } else if self.providers.contains_key(provider) {
                Err(Error::AlreadyProvider)
            } else {
                Ok(
                    (
                        OracleState {
                            providers: self.providers.insert(provider, true),
                            provider_list: self.provider_list.insert(self.provider_count, provider),
                            provider_count: (self.provider_count + 1) as u32,
                            ..self
                        },
                        seq![
                            Effect::RequireAuth(dao),
                            Effect::Provider(
                                ProviderEvent {
                                    action: Symbol { head: ADD, tail: 0 },
                                    provider,
                                },
                            ),
                        ],
                    ),
                )
            },
        }
    }

    pub open spec fn remove_provider(self, dao: Address, provider: Address) -> Result<
        (Self, Seq<Effect>),
        Error,
    > {
        match self.dao_error(dao) {
            Some(e) => Err(e),
            None => if !self.providers.contains_key(provider) {
                Err(Error::NotAProvider)
            } else {
                Ok(
                    (
                        OracleState { providers: self.providers.remove(provider), ..self },
                        seq![
                            Effect::RequireAuth(dao),
                            Effect::Provider(
                                ProviderEvent {
                                    action: Symbol { head: REM, tail: 0 },
                                    provider,
                                },
                            ),
                        ],
                    ),
                )
            },
        }
    }

    pub open spec fn set_min_providers(self, dao: Address, min_providers: u32) -> Result<
        (Self, Seq<Effect>),
        Error,
    > {
        match self.dao_error(dao) {
            Some(e) => Err(e),
            None => Ok(
                (
                    OracleState { min_providers: Some(min_providers), ..self },
                    seq![Effect::RequireAuth(dao)],
                ),
            ),
        }
    }

    // ── Prices ────────────────────────────────────────────────────

    /// Why a price moves too far from the last one.
    pub open spec fn breaker_error(self, asset: Symbol, price: i128) -> Option<Error> {
        let last = self.feeds[asset].latest_price;
        let distance = if price >= last {
            price - last
        } else {
            last - price
        };
        if !self.feeds.contains_key(asset) || last <= 0 {
            None
        } else if !arith::fits(last * CIRCUIT_BPS) {
            Some(Error::Arithmetic)
        } else if distance > arith::quot(last * CIRCUIT_BPS, PRECISION as int) {
            Some(Error::CircuitBreaker)
        } else {
            None
        }
    }

    /// How many observations make the oracle settle on a price.
    pub open spec fn quorum(self) -> int {
        arith::min(self.provider_count as int, MAX_PROVIDERS as int) / 3 + 1
    }

    /// The state with the pending observations of an asset turned into a
    /// price.
    pub open spec fn aggregate(self, env: Context, asset: Symbol) -> Result<(Self, Seq<Effect>), Error> {
        let list = self.pending_of(asset);
        if list.len() < self.min_count() || list.len() == 0 {
            Err(Error::InsufficientObservations)
        } else if list.len() > u32::MAX {
            Err(Error::Arithmetic)
        } else {
            let price = prices::agreed(prices::prices_of(list));
            Ok(
                (
                    OracleState {
                        feeds: self.feeds.insert(
                            asset,
                            AssetFeed {
                                latest_price: price,
                                latest_ts: env.timestamp,
                                twap_price: price,
                                twap_ts: env.timestamp,
                                observation_count: list.len() as u32,
                            },
                        ),
                        pending: self.pending.insert(asset, Seq::empty()),
                        ..self
                    },
                    seq![Effect::Aggregated(PriceAggEvent { asset, median_price: price })],
                ),
            )
        }
    }

    /// The state with one more observation.
    pub open spec fn noted(self, env: Context, provider: Address, asset: Symbol, price: i128) -> Self {
        OracleState {
            pending: self.pending.insert(
                asset,
                self.pending_of(asset).push(
                    PriceObservation { price, timestamp: env.timestamp, provider },
                ),
            ),
            ..self
        }
    }

    /// What an observation of a provider does.
    pub open spec fn observe(
        self,
        env: Context,
        provider: Address,
        asset: Symbol,
        price: i128,
    ) -> Result<(Self, Seq<Effect>), Error> {
        let event = Effect::Price(PriceEvent { asset, provider, price });
        if price <= 0 {
            Err(Error::PriceNotPositive)
        } else if self.breaker_error(asset, price) is Some {
            Err(self.breaker_error(asset, price)->0)
        } else if self.pending_of(asset).len() >= u32::MAX {
            Err(Error::Arithmetic)
        } else {
            let next = self.noted(env, provider, asset, price);
            if next.pending_of(asset).len() >= self.quorum() {
                match next.aggregate(env, asset) {
                    Err(e) => Err(e),
                    Ok((settled, effects)) => Ok((settled, seq![event] + effects)),
                }
            } else {
                Ok((next, seq![event]))
            }
        }
    }

    pub open spec fn submit_price(
        self,
        env: Context,
        provider: Address,
        asset: Symbol,
        price: i128,
    ) -> Result<(Self, Seq<Effect>), Error> {
        if !self.providers.contains_key(provider) {
            Err(Error::NotAuthorisedProvider)
        } else {
            match self.observe(env, provider, asset, price) {
                Err(e) => Err(e),
                Ok((next, effects)) => Ok((next, seq![Effect::RequireAuth(provider)] + effects)),
            }
        }
    }

    /// What the observations of a provider do, one after the other.
    pub open spec fn observe_each(
        self,
        env: Context,
        provider: Address,
        assets: Seq<Symbol>,
        prices: Seq<i128>,
    ) -> Result<(Self, Seq<Effect>), Error>
        decreases assets.len(),
    {
        if assets.len() == 0 {
            Ok((self, Seq::empty()))
        } else {
            match self.observe_each(env, provider, assets.drop_last(), prices.drop_last()) {
                Err(e) => Err(e),
                Ok((mid, first)) => match mid.observe(
                    env,
                    provider,
                    assets.last(),
                    prices.last(),
                ) {
                    Err(e) => Err(e),
                    Ok((next, then)) => Ok((next, first + then)),
                },
            }
        }
    }

    pub open spec fn submit_prices(
        self,
        env: Context,
        provider: Address,
        assets: Seq<Symbol>,
        prices: Seq<i128>,
    ) -> Result<(Self, Seq<Effect>), Error> {
        if !self.providers.contains_key(provider) {
            Err(Error::NotAuthorisedProvider)
        } else if assets.len() != prices.len() {
            Err(Error::LengthMismatch)
        } else {
            match self.observe_each(env, provider, assets, prices) {
                Err(e) => Err(e),
                Ok((next, effects)) => Ok((next, seq![Effect::RequireAuth(provider)] + effects)),
            }
        }
    }

    // ── Time-weighted prices ──────────────────────────────────────

    /// The accumulator of an asset, as it was left.
    pub open spec fn accumulator(self, env: Context, asset: Symbol) -> TwapAccumulator {
        if self.accumulators.contains_key(asset) {
            self.accumulators[asset]
        } else {
            TwapAccumulator::fresh(self.feeds[asset].latest_price, env.timestamp)
        }
    }

    pub open spec fn update_twap(self, env: Context, asset: Symbol) -> Result<
        (Self, i128, Seq<Effect>),
        Error,
    > {
        if !self.feeds.contains_key(asset) {
            Err(Error::NoPriceFeed)
        } else if self.twap_window is None {
            Err(Error::NotInitialised)
        } else {
            let feed = self.feeds[asset];
            match self.accumulator(env, asset).advanced(feed.latest_price, env.timestamp) {
                Err(e) => Err(e),
                Ok(acc) => match acc.averaged(env.timestamp, self.twap_window->0) {
                    Err(e) => Err(e),
                    Ok((rolled, twap)) => Ok(
                        (
                            OracleState {
                                accumulators: self.accumulators.insert(asset, rolled),
                                feeds: self.feeds.insert(
                                    asset,
                                    AssetFeed { twap_price: twap, twap_ts: env.timestamp, ..feed },
                                ),
                                ..self
                            },
                            twap,
                            seq![Effect::Twap(TwapEvent { asset, twap_price: twap })],
                        ),
                    ),
                },
            }
        }
    }

    // ── Views ─────────────────────────────────────────────────────

    pub open spec fn get_price(self, env: Context, asset: Symbol) -> Result<i128, Error> {
        if !self.feeds.contains_key(asset) {
            Err(Error::NoFeed)
        } else if since(self.feeds[asset].latest_ts, env.timestamp) > MAX_AGE_SECS {
            Err(Error::PriceStale)
        } else {
            Ok(self.feeds[asset].latest_price)
        }
    }

    pub open spec fn get_twap(self, env: Context, asset: Symbol) -> Result<i128, Error> {
        if !self.feeds.contains_key(asset) {
            Err(Error::NoFeed)
        } else if since(self.feeds[asset].twap_ts, env.timestamp) > MAX_AGE_SECS * 2 {
            Err(Error::TwapStale)
        } else {
            Ok(self.feeds[asset].twap_price)
        }
    }

    pub open spec fn is_stale(self, env: Context, asset: Symbol) -> bool {
        !self.feeds.contains_key(asset) || since(self.feeds[asset].latest_ts, env.timestamp)
            > MAX_AGE_SECS
    }

    // ── What always holds ─────────────────────────────────────────

    /// What holds of the oracle at all times: there are at most as many
    /// providers as there may be, each with its place in the list; a window
    /// has a length; and every price, pending or settled, is positive.
    pub open spec fn sound(self) -> bool {
        &&& self.provider_count <= MAX_PROVIDERS
        &&& forall|i: u32|
            i < self.provider_count ==> #[trigger] self.provider_list.contains_key(i)
        &&& (self.admin is Some) == (self.dao is Some)
        &&& (self.twap_window is Some) == (self.dao is Some)
        &&& self.twap_window matches Some(w) ==> w > 0
        &&& self.dao is None ==> self.provider_count == 0
        &&& forall|asset: Symbol| #[trigger]
            self.pending.contains_key(asset) ==> self.pending_sound(asset)
        &&& forall|asset: Symbol| #[trigger]
            self.feeds.contains_key(asset) ==> self.feed_sound(asset)
        &&& forall|asset: Symbol| #[trigger]
            self.accumulators.contains_key(asset) ==> self.accumulators[asset].sound()
    }

    pub open spec fn pending_sound(self, asset: Symbol) -> bool {
        forall|i: int|
            0 <= i < self.pending[asset].len() ==> (#[trigger] self.pending[asset][i]).price > 0
    }

    pub open spec fn feed_sound(self, asset: Symbol) -> bool {
        let feed = self.feeds[asset];
        &&& feed.latest_price > 0
        &&& feed.twap_price > 0
        &&& feed.observation_count > 0
    }
}

impl TwapAccumulator {
    /// All prices that the window holds, and the last one, lie between two
    /// bounds.
    pub open spec fn within(self, low: int, high: int) -> bool {
        let seconds = self.last_timestamp - self.window_start;
        &&& seconds >= 0
        &&& low * seconds <= self.cumulative_price - self.window_cum_start <= high * seconds
        &&& low <= self.last_price <= high
    }

    /// The window holds at least one unit of price for each second in it.
    pub open spec fn sound(self) -> bool {
        &&& self.last_price > 0
        &&& self.cumulative_price >= self.window_cum_start
        &&& self.cumulative_price - self.window_cum_start >= self.last_timestamp
            - self.window_start
    }
}

/// A call that can change the contract.
pub enum Call {
    Initialize { admin: Address, dao: Address, twap_window: u64 },
    AddProvider { dao: Address, provider: Address },
    RemoveProvider { dao: Address, provider: Address },
    SetMinProviders { dao: Address, min_providers: u32 },
    SubmitPrice { provider: Address, asset: Symbol, price: i128 },
    SubmitPrices { provider: Address, assets: Seq<Symbol>, prices: Seq<i128> },
    Aggregate { asset: Symbol },
    UpdateTwap { asset: Symbol },
}

impl OracleState {
    /// The contract after a call.
    pub open spec fn after(self, env: Context, call: Call) -> OracleState {
        match call {
            Call::Initialize { admin, dao, twap_window } => error::next(
                self,
                self.initialize(admin, dao, twap_window),
            ),
            Call::AddProvider { dao, provider } => error::next(
                self,
                self.add_provider(dao, provider),
            ),
            Call::RemoveProvider { dao, provider } => error::next(
                self,
                self.remove_provider(dao, provider),
            ),
            Call::SetMinProviders { dao, min_providers } => error::next(
                self,
                self.set_min_providers(dao, min_providers),
            ),
            Call::SubmitPrice { provider, asset, price } => error::next(
                self,
                self.submit_price(env, provider, asset, price),
            ),
            Call::SubmitPrices { provider, assets, prices } => error::next(
                self,
                self.submit_prices(env, provider, assets, prices),
            ),
            Call::Aggregate { asset } => error::next(self, self.aggregate(env, asset)),
            Call::UpdateTwap { asset } => error::next_on(self, self.update_twap(env, asset)),
        }
    }
}

} // verus!
