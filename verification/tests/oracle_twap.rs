use soroban_sdk::testutils::EnvTestConfig;
use uruk_protocol::error::Error;
use uruk_protocol::oracle_twap::{
    AssetFeed, Effect, OracleTwap, PriceAggEvent, PriceEvent, ProviderEvent, TwapAccumulator,
    TwapEvent,
};
use uruk_protocol::types::{Address, Context, Symbol};

fn host() -> soroban_sdk::Env {
    soroban_sdk::Env::new_with_config(EnvTestConfig { capture_snapshot_at_drop: false })
}

fn addr(n: u128) -> Address {
    Address { contract: false, hi: 0, lo: n }
}

fn sym(text: &str) -> Symbol {
    Symbol::new(text.as_bytes()).unwrap()
}

fn at(timestamp: u64) -> Context {
    Context { contract: addr(100), timestamp, sequence: 1 }
}

fn admin() -> Address {
    addr(1)
}

fn dao() -> Address {
    addr(2)
}

fn provider() -> Address {
    addr(3)
}

fn setup() -> OracleTwap {
    let mut oracle = OracleTwap::new();
    oracle.initialize(admin(), dao(), 3600).unwrap();
    oracle.add_provider(dao(), provider()).unwrap();
    oracle.set_min_providers(dao(), 1).unwrap();
    oracle
}

/// An oracle that settles on a price only when it is asked to: with `n`
/// providers it waits for a third of them and one.
fn waiting(n: u128) -> OracleTwap {
    let mut oracle = OracleTwap::new();
    oracle.initialize(admin(), dao(), 0).unwrap();
    for i in 0..n {
        oracle.add_provider(dao(), addr(1000 + i)).unwrap();
    }
    oracle
}

#[test]
fn submit_prices_writes_all_feeds() {
    let mut oracle = setup();
    let assets = vec![sym("AAPL"), sym("TSLA"), sym("BTCUSD")];
    let prices = vec![120_0000000_i128, 200_0000000_i128, 63_000_0000000_i128];
    oracle.submit_prices(&host(), &at(0), provider(), &assets, &prices).unwrap();

    assert_eq!(oracle.get_price(&at(0), sym("AAPL")), Ok(120_0000000));
    assert_eq!(oracle.get_price(&at(0), sym("TSLA")), Ok(200_0000000));
    assert_eq!(oracle.get_price(&at(0), sym("BTCUSD")), Ok(63_000_0000000));
}

#[test]
fn submit_price_still_works() {
    let mut oracle = setup();
    oracle.submit_price(&host(), &at(0), provider(), sym("AAPL"), 150_0000000).unwrap();
    assert_eq!(oracle.get_price(&at(0), sym("AAPL")), Ok(150_0000000));
}

#[test]
fn submit_prices_rejects_length_mismatch() {
    let mut oracle = setup();
    let assets = vec![sym("AAPL")];
    let prices = vec![120_0000000_i128, 200_0000000_i128];
    let refused = oracle.submit_prices(&host(), &at(0), provider(), &assets, &prices);
    assert_eq!(refused, Err(Error::LengthMismatch));
    assert_eq!(refused.unwrap_err().message(), "assets/prices length mismatch");
}

#[test]
fn oracle_starts_once() {
    let mut oracle = OracleTwap::new();
    assert_eq!(oracle.add_provider(dao(), provider()), Err(Error::NotInitialised));
    assert_eq!(
        oracle.initialize(admin(), dao(), 0),
        Ok(vec![Effect::RequireAuth(admin())])
    );
    assert_eq!(oracle.twap_window, Some(3600));
    assert_eq!(oracle.initialize(admin(), dao(), 0), Err(Error::AlreadyInitialised));
}

#[test]
fn providers_are_voted_in_and_out() {
    let mut oracle = waiting(0);
    assert_eq!(oracle.add_provider(admin(), provider()), Err(Error::DaoOnly));
    assert_eq!(
        oracle.add_provider(dao(), provider()),
        Ok(vec![
            Effect::RequireAuth(dao()),
            Effect::Provider(ProviderEvent { action: sym("add"), provider: provider() }),
        ])
    );
    assert!(oracle.is_provider(provider()));
    assert_eq!(oracle.add_provider(dao(), provider()), Err(Error::AlreadyProvider));
    assert_eq!(
        oracle.remove_provider(dao(), provider()),
        Ok(vec![
            Effect::RequireAuth(dao()),
            Effect::Provider(ProviderEvent { action: sym("rem"), provider: provider() }),
        ])
    );
    assert!(!oracle.is_provider(provider()));
    assert_eq!(oracle.remove_provider(dao(), provider()), Err(Error::NotAProvider));
    // The place in the list stays taken.
    assert_eq!(oracle.provider_count(), 1);
}

#[test]
fn there_are_at_most_twenty_one_providers() {
    let mut oracle = waiting(21);
    assert_eq!(oracle.provider_count(), 21);
    assert_eq!(oracle.add_provider(dao(), provider()), Err(Error::MaxProvidersReached));
}

#[test]
fn only_providers_report_prices() {
    let mut oracle = setup();
    assert_eq!(
        oracle.submit_price(&host(), &at(0), addr(9), sym("XLM"), 1),
        Err(Error::NotAuthorisedProvider)
    );
    assert_eq!(
        oracle.submit_prices(&host(), &at(0), addr(9), &vec![sym("XLM")], &vec![1]),
        Err(Error::NotAuthorisedProvider)
    );
    assert_eq!(
        oracle.submit_price(&host(), &at(0), provider(), sym("XLM"), 0),
        Err(Error::PriceNotPositive)
    );
}

#[test]
fn a_report_and_the_price_are_announced() {
    let mut oracle = setup();
    assert_eq!(
        oracle.submit_price(&host(), &at(5), provider(), sym("XLM"), 7),
        Ok(vec![
            Effect::RequireAuth(provider()),
            Effect::Price(PriceEvent { asset: sym("XLM"), provider: provider(), price: 7 }),
            Effect::Aggregated(PriceAggEvent { asset: sym("XLM"), median_price: 7 }),
        ])
    );
    assert_eq!(
        oracle.get_feed(sym("XLM")),
        Ok(AssetFeed {
            latest_price: 7,
            latest_ts: 5,
            twap_price: 7,
            twap_ts: 5,
            observation_count: 1,
        })
    );
}

#[test]
fn the_breaker_stops_moves_over_a_fifth() {
    let mut oracle = setup();
    let asset = sym("XLM");
    oracle.submit_price(&host(), &at(0), provider(), asset, 1000).unwrap();
    assert_eq!(
        oracle.submit_price(&host(), &at(0), provider(), asset, 1201),
        Err(Error::CircuitBreaker)
    );
    assert_eq!(
        oracle.submit_price(&host(), &at(0), provider(), asset, 799),
        Err(Error::CircuitBreaker)
    );
    oracle.submit_price(&host(), &at(0), provider(), asset, 1200).unwrap();
    assert_eq!(oracle.get_price(&at(0), asset), Ok(1200));
    oracle.submit_price(&host(), &at(0), provider(), asset, 960).unwrap();
    assert_eq!(oracle.get_price(&at(0), asset), Ok(960));
}

#[test]
fn a_huge_price_overflows_the_breaker() {
    let mut oracle = setup();
    let asset = sym("XLM");
    oracle.submit_price(&host(), &at(0), provider(), asset, i128::MAX).unwrap();
    assert_eq!(
        oracle.submit_price(&host(), &at(0), provider(), asset, 5),
        Err(Error::Arithmetic)
    );
}

#[test]
fn outliers_are_dropped_before_the_median() {
    // Eight reports make the oracle settle: two are dropped at either end.
    let mut oracle = waiting(21);
    let asset = sym("XLM");
    let reports: [i128; 8] = [500, 100, 110, 1, 120, 90, 130, 9_000_000];
    for (i, price) in reports.iter().enumerate() {
        oracle.submit_price(&host(), &at(0), addr(1000 + i as u128), asset, *price).unwrap();
    }
    // 1 90 | 100 110 120 130 | 500 9000000
    assert_eq!(oracle.get_price(&at(0), asset), Ok(115));
    assert_eq!(oracle.get_feed(asset).unwrap().observation_count, 8);
    assert!(oracle.pending.get(&asset).unwrap().is_empty());
}

#[test]
fn the_order_of_reports_does_not_matter() {
    let asset = sym("XLM");
    let orders: [[i128; 3]; 3] = [[10, 20, 33], [33, 10, 20], [20, 33, 10]];
    for order in orders.iter() {
        let mut oracle = waiting(6);
        for (i, price) in order.iter().enumerate() {
            oracle.submit_price(&host(), &at(0), addr(1000 + i as u128), asset, *price).unwrap();
        }
        // Nothing is dropped of three, and the one in the middle counts.
        assert_eq!(oracle.get_price(&at(0), asset), Ok(20));
    }
}

#[test]
fn too_few_reports_make_no_price() {
    let mut oracle = waiting(21);
    let asset = sym("XLM");
    assert_eq!(oracle.get_min_providers(), 3);
    assert_eq!(
        oracle.aggregate(&host(), &at(0), asset),
        Err(Error::InsufficientObservations)
    );
    for i in 0..2u128 {
        oracle.submit_price(&host(), &at(0), addr(1000 + i), asset, 50).unwrap();
    }
    assert_eq!(
        oracle.aggregate(&host(), &at(0), asset),
        Err(Error::InsufficientObservations)
    );
    oracle.set_min_providers(dao(), 2).unwrap();
    assert_eq!(
        oracle.aggregate(&host(), &at(0), asset),
        Ok(vec![Effect::Aggregated(PriceAggEvent { asset, median_price: 50 })])
    );
    // Not even where none is asked for does nothing make a price.
    oracle.set_min_providers(dao(), 0).unwrap();
    assert_eq!(
        oracle.aggregate(&host(), &at(0), asset),
        Err(Error::InsufficientObservations)
    );
}

#[test]
fn a_report_that_cannot_be_settled_is_refused() {
    // With three providers two reports should settle, but three are needed.
    let mut oracle = waiting(3);
    let asset = sym("XLM");
    oracle.submit_price(&host(), &at(0), addr(1000), asset, 50).unwrap();
    assert_eq!(
        oracle.submit_price(&host(), &at(0), addr(1001), asset, 51),
        Err(Error::InsufficientObservations)
    );
    assert_eq!(oracle.pending.get(&asset).unwrap().len(), 1);
}

#[test]
fn huge_prices_have_a_median() {
    let mut oracle = waiting(21);
    let asset = sym("XLM");
    for i in 0..4i128 {
        let provider = addr(1000 + i as u128);
        oracle.submit_price(&host(), &at(0), provider, asset, i128::MAX - i).unwrap();
    }
    oracle.aggregate(&host(), &at(0), asset).unwrap();
    // Halfway between the second and the third, rounded down.
    assert_eq!(oracle.get_price(&at(0), asset), Ok(i128::MAX - 2));
}

#[test]
fn a_batch_counts_whole_or_not_at_all() {
    let mut oracle = setup();
    let a = sym("AAA");
    let b = sym("BBB");
    oracle.submit_price(&host(), &at(0), provider(), a, 1000).unwrap();
    let refused = oracle.submit_prices(
        &host(),
        &at(9),
        provider(),
        &vec![b, a, b, a],
        &vec![500, 1100, 510, 5],
    );
    assert_eq!(refused, Err(Error::CircuitBreaker));
    assert_eq!(oracle.get_feed(a).unwrap().latest_price, 1000);
    assert_eq!(oracle.get_feed(a).unwrap().latest_ts, 0);
    assert_eq!(oracle.get_feed(b), Err(Error::NoFeed));
    assert!(oracle.pending.get(&b).is_none());
    assert!(oracle.pending.get(&a).unwrap().is_empty());
}

#[test]
fn a_batch_does_what_its_reports_do() {
    let a = sym("AAA");
    let b = sym("BBB");
    let mut batch = setup();
    let effects = batch
        .submit_prices(&host(), &at(1), provider(), &vec![a, b, a], &vec![10, 20, 11])
        .unwrap();
    assert_eq!(effects.len(), 7);
    let mut single = setup();
    single.submit_price(&host(), &at(1), provider(), a, 10).unwrap();
    single.submit_price(&host(), &at(1), provider(), b, 20).unwrap();
    single.submit_price(&host(), &at(1), provider(), a, 11).unwrap();
    assert_eq!(batch.get_feed(a), single.get_feed(a));
    assert_eq!(batch.get_feed(b), single.get_feed(b));
}

#[test]
fn prices_go_stale() {
    let mut oracle = setup();
    let asset = sym("XLM");
    assert_eq!(oracle.get_price(&at(0), asset), Err(Error::NoFeed));
    assert_eq!(oracle.get_twap(&at(0), asset), Err(Error::NoFeed));
    assert!(oracle.is_stale(&at(0), asset));
    oracle.submit_price(&host(), &at(1000), provider(), asset, 5).unwrap();
    assert_eq!(oracle.get_price(&at(1300), asset), Ok(5));
    assert!(!oracle.is_stale(&at(1300), asset));
    assert_eq!(oracle.get_price(&at(1301), asset), Err(Error::PriceStale));
    assert!(oracle.is_stale(&at(1301), asset));
    assert_eq!(oracle.get_twap(&at(1600), asset), Ok(5));
    assert_eq!(oracle.get_twap(&at(1601), asset), Err(Error::TwapStale));
}

#[test]
fn the_average_follows_time() {
    let mut oracle = setup();
    let asset = sym("XLM");
    assert_eq!(oracle.update_twap(&at(0), asset), Err(Error::NoPriceFeed));
    oracle.submit_price(&host(), &at(0), provider(), asset, 1000).unwrap();
    assert_eq!(
        oracle.update_twap(&at(0), asset),
        Ok((1000, vec![Effect::Twap(TwapEvent { asset, twap_price: 1000 })]))
    );
    // The price stays as it is for a while, then moves.
    assert_eq!(oracle.update_twap(&at(100), asset).unwrap().0, 1000);
    oracle.submit_price(&host(), &at(100), provider(), asset, 1200).unwrap();
    assert_eq!(oracle.update_twap(&at(100), asset).unwrap().0, 1000);
    // 100 seconds at 1000 and 300 at 1200.
    assert_eq!(oracle.update_twap(&at(400), asset).unwrap().0, 1150);
    assert_eq!(oracle.get_twap(&at(400), asset), Ok(1150));
}

#[test]
fn the_window_rolls() {
    let mut oracle = setup();
    let asset = sym("XLM");
    oracle.submit_price(&host(), &at(0), provider(), asset, 1000).unwrap();
    oracle.update_twap(&at(0), asset).unwrap();
    assert_eq!(oracle.update_twap(&at(3600), asset).unwrap().0, 1000);
    assert_eq!(
        oracle.accumulators.get(&asset),
        Some(&TwapAccumulator {
            cumulative_price: 3_600_000,
            last_price: 1000,
            last_timestamp: 3600,
            window_start: 3600,
            window_cum_start: 3_600_000,
        })
    );
    // However late the update comes, the average of one price is that price.
    assert_eq!(oracle.update_twap(&at(3600 + 7200), asset).unwrap().0, 1000);
    assert_eq!(oracle.update_twap(&at(100_000), asset).unwrap().0, 1000);
}

#[test]
fn three_reports_settle_at_the_one_between() {
    let mut oracle = waiting(6);
    let asset = sym("XLM");
    for (i, price) in [110, 100, 101].iter().enumerate() {
        oracle.submit_price(&host(), &at(0), addr(1000 + i as u128), asset, *price).unwrap();
    }
    assert_eq!(oracle.get_price(&at(0), asset), Ok(101));
}
