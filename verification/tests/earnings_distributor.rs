use uruk_protocol::earnings_distributor::{
    EarningsDistributor, Effect, EpochClosed, EpochData, EpochOpened, PartnerRevenueForwarded,
    RevenueClaimed, RevenueReceived,
};
use uruk_protocol::error::Error;
use uruk_protocol::types::{Address, Context, Symbol, WasmHash};

const WEEK: u64 = 604_800;

fn addr(n: u128) -> Address {
    Address { contract: false, hi: 0, lo: n }
}

fn here() -> Address {
    addr(100)
}

fn at(timestamp: u64) -> Context {
    Context { contract: here(), timestamp, sequence: 1 }
}

fn admin() -> Address {
    addr(1)
}

fn treasury() -> Address {
    addr(2)
}

fn dev() -> Address {
    addr(3)
}

fn stab() -> Address {
    addr(4)
}

fn dao() -> Address {
    addr(5)
}

fn partners() -> Address {
    addr(6)
}

fn engine() -> Address {
    addr(7)
}

fn usdc() -> Address {
    addr(8)
}

fn alice() -> Address {
    addr(9)
}

fn fee() -> Symbol {
    Symbol::new(b"swapfee").unwrap()
}

fn setup() -> EarningsDistributor {
    let mut e = EarningsDistributor::new();
    e.initialize(&at(0), admin(), treasury(), dev(), stab(), dao(), partners()).unwrap();
    e
}

fn paid(to: Address, amount: i128) -> Effect {
    Effect::Transfer { token: usdc(), from: here(), to, amount }
}

#[test]
fn distributor_starts_once() {
    let mut e = EarningsDistributor::new();
    assert_eq!(e.register_lp(admin(), alice()), Err(Error::NotInitialised));
    assert_eq!(
        e.initialize(&at(10), admin(), treasury(), dev(), stab(), dao(), partners()),
        Ok(vec![Effect::RequireAuth(admin())])
    );
    assert_eq!(
        e.get_epoch(0),
        Some(EpochData {
            epoch_id: 0,
            start_time: 10,
            end_time: 10 + WEEK,
            total_revenue: 0,
            partner_revenue: 0,
            protocol_revenue: 0,
            staker_snapshot: 0,
            per_token_revenue: 0,
            finalized: false,
        })
    );
    assert_eq!(e.get_epoch(1), None);
    assert_eq!(
        e.initialize(&at(10), admin(), treasury(), dev(), stab(), dao(), partners()),
        Err(Error::AlreadyInitialised)
    );
    assert_eq!(
        EarningsDistributor::new().initialize(
            &at(u64::MAX),
            admin(),
            treasury(),
            dev(),
            stab(),
            dao(),
            partners()
        ),
        Err(Error::Arithmetic)
    );
}

#[test]
fn untagged_revenue_is_the_protocols() {
    let mut e = setup();
    assert_eq!(
        e.receive_revenue(&at(1), engine(), usdc(), 1000, fee(), 0, 0, 0),
        Ok(vec![
            Effect::RequireAuth(engine()),
            Effect::Transfer { token: usdc(), from: engine(), to: here(), amount: 1000 },
            Effect::RevenueReceived(RevenueReceived {
                sender: engine(),
                source: fee(),
                token: usdc(),
                amount: 1000,
                epoch: 0,
            }),
        ])
    );
    assert_eq!(e.get_epoch_revenue(0, usdc()), 1000);
    assert_eq!(e.get_epoch_tokens(0), vec![usdc()]);
    let ep = e.get_epoch(0).unwrap();
    assert_eq!(ep.total_revenue, 1000);
    assert_eq!(ep.protocol_revenue, 1000);
    assert_eq!(ep.partner_revenue, 0);
    e.receive_revenue(&at(1), engine(), usdc(), 5, fee(), 0, 0, 0).unwrap();
    e.receive_revenue(&at(1), engine(), alice(), 7, fee(), 0, 0, 0).unwrap();
    assert_eq!(e.get_epoch_tokens(0), vec![usdc(), alice()]);
    assert_eq!(e.get_epoch_revenue(0, usdc()), 1005);
}

#[test]
fn tagged_revenue_is_split_with_the_partner() {
    let mut e = setup();
    assert_eq!(
        e.receive_revenue(&at(1), engine(), usdc(), 1001, fee(), 3, 3_000, 0),
        Ok(vec![
            Effect::RequireAuth(engine()),
            Effect::Transfer { token: usdc(), from: engine(), to: here(), amount: 1001 },
            paid(partners(), 300),
            Effect::CreditPartnerRevenue {
                registry: partners(),
                caller: here(),
                partner_id: 3,
                amount: 300,
                epoch: 0,
            },
            Effect::PartnerRevenueForwarded(PartnerRevenueForwarded {
                partner_id: 3,
                epoch: 0,
                partner_cut: 300,
                source: fee(),
            }),
            Effect::RevenueReceived(RevenueReceived {
                sender: engine(),
                source: fee(),
                token: usdc(),
                amount: 1001,
                epoch: 0,
            }),
        ])
    );
    assert_eq!(e.get_partner_epoch_revenue(0, 3), 300);
    assert_eq!(e.get_epoch_revenue(0, usdc()), 701);
    // A partner without a share of its own gets half.
    e.receive_revenue(&at(1), engine(), usdc(), 100, fee(), 4, 0, 0).unwrap();
    assert_eq!(e.get_partner_epoch_revenue(0, 4), 50);
    let ep = e.get_epoch(0).unwrap();
    assert_eq!(ep.total_revenue, 1101);
    assert_eq!(ep.partner_revenue, 350);
    assert_eq!(ep.protocol_revenue, 751);
}

#[test]
fn revenue_is_checked() {
    let mut e = setup();
    assert_eq!(
        e.receive_revenue(&at(1), engine(), usdc(), 0, fee(), 0, 0, 0),
        Err(Error::AmountNotPositive)
    );
    assert_eq!(
        e.receive_revenue(&at(1), engine(), usdc(), i128::MAX, fee(), 1, 3_000, 0),
        Err(Error::Arithmetic)
    );
    assert_eq!(
        EarningsDistributor::new().receive_revenue(&at(1), engine(), usdc(), 5, fee(), 0, 0, 0),
        Err(Error::NotInitialised)
    );
}

#[test]
fn an_epoch_is_shared_out() {
    let mut e = setup();
    let lp = [addr(20), addr(21), addr(22)];
    for l in lp.iter() {
        e.register_lp(admin(), *l).unwrap();
    }
    assert_eq!(e.register_lp(alice(), alice()), Err(Error::AdminOnly));
    e.receive_revenue(&at(1), engine(), usdc(), 10_000, fee(), 0, 0, 0).unwrap();
    assert!(!e.is_epoch_over(&at(WEEK - 1)));
    assert_eq!(e.finalize_epoch(&at(WEEK - 1), 500), Err(Error::EpochNotComplete));
    assert!(e.is_epoch_over(&at(WEEK)));
    assert_eq!(
        e.finalize_epoch(&at(WEEK), 500),
        Ok((
            0,
            vec![
                paid(treasury(), 1000),
                paid(dev(), 500),
                paid(stab(), 2000),
                paid(lp[0], 1000),
                paid(lp[1], 1000),
                paid(lp[2], 1000),
                Effect::EpochClosed(EpochClosed { epoch: 0, total_revenue: 10_000 }),
                Effect::EpochOpened(EpochOpened { epoch: 1 }),
            ]
        ))
    );
    let ep = e.get_epoch(0).unwrap();
    assert!(ep.finalized);
    assert_eq!(ep.staker_snapshot, 500);
    assert_eq!(e.get_current_epoch(), 1);
    assert_eq!(e.get_epoch(1).unwrap().end_time, 2 * WEEK);
}

#[test]
fn late_revenue_closes_the_epoch() {
    let mut e = setup();
    let effects = e
        .receive_revenue(&at(WEEK + 9), engine(), usdc(), 100, fee(), 0, 0, 77)
        .unwrap();
    assert_eq!(
        effects[3..],
        [
            paid(treasury(), 10),
            paid(dev(), 5),
            paid(stab(), 20),
            Effect::EpochClosed(EpochClosed { epoch: 0, total_revenue: 100 }),
            Effect::EpochOpened(EpochOpened { epoch: 1 }),
        ]
    );
    assert_eq!(e.get_epoch(0).unwrap().staker_snapshot, 77);
    assert_eq!(e.get_epoch(1).unwrap().start_time, WEEK + 9);
}

#[test]
fn depositors_claim_their_part_once() {
    let mut e = setup();
    e.receive_revenue(&at(1), engine(), usdc(), 10_000, fee(), 0, 0, 0).unwrap();
    e.finalize_epoch(&at(WEEK), 1_000).unwrap();
    assert_eq!(e.claim(alice(), &vec![0], 0), Err(Error::NoStabilityDeposit));
    // A quarter of the deposits gets a quarter of 35 percent.
    assert_eq!(
        e.claim(alice(), &vec![0, 0, 1, 9], 250),
        Ok((
            875,
            vec![
                Effect::RequireAuth(alice()),
                Effect::RevenueClaimed(RevenueClaimed { claimer: alice(), total: 875 }),
            ]
        ))
    );
    assert!(e.has_claimed(alice(), 0));
    assert!(!e.has_claimed(alice(), 1));
    assert_eq!(
        e.claim(alice(), &vec![0], 250),
        Ok((0, vec![Effect::RequireAuth(alice())]))
    );
    assert_eq!(
        EarningsDistributor::new().claim(alice(), &vec![], 5),
        Err(Error::NotInitialised)
    );
}

#[test]
fn an_epoch_without_deposits_gives_no_claim() {
    let mut e = setup();
    e.receive_revenue(&at(1), engine(), usdc(), 10_000, fee(), 0, 0, 0).unwrap();
    e.finalize_epoch(&at(WEEK), 0).unwrap();
    assert_eq!(e.claim(alice(), &vec![0], 250).unwrap().0, 0);
}

#[test]
fn the_dao_replaces_the_distributor() {
    let mut e = setup();
    let hash = WasmHash { hi: 1, lo: 2 };
    assert_eq!(
        e.upgrade(alice(), hash),
        Ok(vec![Effect::RequireAuth(dao()), Effect::UpdateWasm(hash)])
    );
    assert_eq!(
        EarningsDistributor::new().upgrade(alice(), hash),
        Err(Error::NotInitialised)
    );
}

#[test]
fn a_closed_epoch_is_not_closed_again() {
    let mut e = setup();
    let mut epoch = e.get_epoch(0).unwrap();
    epoch.finalized = true;
    e.epochs.insert(0, epoch);
    assert_eq!(e.finalize_epoch(&at(WEEK), 0), Err(Error::EpochAlreadyFinalized));
    assert_eq!(e.get_current_epoch(), 0);
}

#[test]
fn the_listed_tokens_make_the_revenue() {
    let mut e = setup();
    let other = addr(30);
    e.receive_revenue(&at(1), engine(), usdc(), 1000, fee(), 0, 0, 0).unwrap();
    e.receive_revenue(&at(2), engine(), other, 300, fee(), 7, 2_000, 0).unwrap();
    e.receive_revenue(&at(3), engine(), usdc(), 50, fee(), 7, 0, 0).unwrap();
    assert_eq!(e.get_epoch_tokens(0), vec![usdc(), other]);
    let ep = e.get_epoch(0).unwrap();
    let listed: i128 =
        e.get_epoch_tokens(0).iter().map(|token| e.get_epoch_revenue(0, *token)).sum();
    assert_eq!(listed, ep.protocol_revenue);
    assert_eq!(listed, 1000 + 240 + 25);
    assert_eq!(ep.total_revenue, ep.partner_revenue + ep.protocol_revenue);
}
