use uruk_protocol::error::Error;
use uruk_protocol::partner_registry::{
    AssetActivated, AssetDeployed, Effect, PartnerAsset, PartnerDeactivated, PartnerRegistered,
    PartnerRegistry, RevenueClaimed, RevenueForwarded,
};
use uruk_protocol::types::{Address, Context, Symbol, WasmHash};

fn addr(n: u128) -> Address {
    Address { contract: false, hi: 0, lo: n }
}

fn sym(text: &str) -> Symbol {
    Symbol::new(text.as_bytes()).unwrap()
}

fn here() -> Address {
    addr(100)
}

fn at(timestamp: u64) -> Context {
    Context { contract: here(), timestamp, sequence: 1 }
}

fn admin() -> Address {
    addr(1)
}

fn dao() -> Address {
    addr(2)
}

fn usdc() -> Address {
    addr(3)
}

fn engine() -> Address {
    addr(4)
}

fn earnings() -> Address {
    addr(5)
}

fn alice() -> Address {
    addr(6)
}

fn bob() -> Address {
    addr(7)
}

fn setup() -> PartnerRegistry {
    let mut r = PartnerRegistry::new();
    r.initialize(admin(), dao(), usdc(), engine(), earnings()).unwrap();
    r
}

fn joined() -> PartnerRegistry {
    let mut r = setup();
    r.register_partner(&at(3), dao(), alice(), String::from("Alpha")).unwrap();
    r
}

fn deploy(r: &mut PartnerRegistry, symbol: &str, min: i128, liq: i128, penalty: i128, ceiling: i128)
    -> Result<Vec<Effect>, Error> {
    r.register_partner_asset(
        &at(8),
        alice(),
        sym(symbol),
        addr(50),
        sym("GOLDUSD"),
        sym("XLMUSD"),
        min,
        liq,
        penalty,
        50,
        ceiling,
    )
}

#[test]
fn registry_starts_once() {
    let mut r = PartnerRegistry::new();
    assert_eq!(
        r.register_partner(&at(0), dao(), alice(), String::from("x")),
        Err(Error::NotInitialised)
    );
    assert_eq!(
        r.initialize(admin(), dao(), usdc(), engine(), earnings()),
        Ok(vec![Effect::RequireAuth(admin())])
    );
    assert!(!r.is_open_registration());
    assert_eq!(
        r.initialize(admin(), dao(), usdc(), engine(), earnings()),
        Err(Error::AlreadyInitialised)
    );
}

#[test]
fn the_dao_registers_partners() {
    let mut r = setup();
    assert_eq!(
        r.register_partner(&at(3), dao(), alice(), String::from("Alpha")),
        Ok((
            1,
            vec![
                Effect::RequireAuth(dao()),
                Effect::PartnerRegistered(PartnerRegistered { owner: alice(), id: 1 }),
            ]
        ))
    );
    let p = r.get_partner(1).unwrap();
    assert_eq!(p.id, 1);
    assert_eq!(p.owner, alice());
    assert_eq!(p.name, "Alpha");
    assert_eq!(p.revenue_share, 5_000);
    assert_eq!(p.pending_revenue, 0);
    assert_eq!(p.registered_at, 3);
    assert!(p.active);
    assert!(r.is_partner(alice()));
    assert_eq!(r.get_partner_id(alice()), Some(1));
    assert_eq!(r.get_partner_owner(1), Some(alice()));
    assert_eq!(r.partner_count(), 1);
    assert!(r.get_partner(0).is_none());
    assert!(r.get_partner(2).is_none());
    assert!(!r.is_partner(bob()));
    assert_eq!(
        r.register_partner(&at(3), dao(), alice(), String::from("Again")),
        Err(Error::AlreadyPartner)
    );
    assert_eq!(
        r.dao_register_partner(&at(3), dao(), bob(), String::from("Beta")).unwrap().0,
        2
    );
}

#[test]
fn partners_register_themselves_where_they_may() {
    let mut r = setup();
    assert_eq!(
        r.self_register(&at(3), alice(), String::from("Alpha")),
        Err(Error::SelfRegistrationDisabled)
    );
    r.set_open_registration(dao(), true).unwrap();
    assert!(r.is_open_registration());
    assert_eq!(
        r.self_register(&at(3), alice(), String::from("Alpha")),
        Ok((
            1,
            vec![
                Effect::RequireAuth(alice()),
                Effect::Transfer {
                    token: usdc(),
                    from: alice(),
                    to: earnings(),
                    amount: 10_000_000_000,
                },
                Effect::PartnerRegistered(PartnerRegistered { owner: alice(), id: 1 }),
            ]
        ))
    );
}

#[test]
fn assets_wait_for_the_dao() {
    let mut r = joined();
    assert_eq!(
        deploy(&mut r, "PSGOLD", 15_000, 12_000, 1_500, 10_000_000_000_000),
        Ok(vec![
            Effect::RequireAuth(alice()),
            Effect::AssetDeployed(AssetDeployed {
                partner_owner: alice(),
                symbol: sym("PSGOLD"),
                id: 1,
                token: addr(50),
            }),
        ])
    );
    assert_eq!(
        r.get_partner_asset(sym("PSGOLD")),
        Some(PartnerAsset {
            symbol: sym("PSGOLD"),
            token: addr(50),
            partner_id: 1,
            oracle_symbol: sym("GOLDUSD"),
            debt_ceiling: 10_000_000_000_000,
            live: false,
            deployed_at: 8,
        })
    );
    assert_eq!(r.get_partner_assets(1), Ok(vec![sym("PSGOLD")]));
    assert_eq!(r.get_partner_assets(2), Err(Error::PartnerNotFound));
    assert_eq!(
        r.activate_partner_asset(dao(), sym("PSGOLD")),
        Ok(vec![
            Effect::RequireAuth(dao()),
            Effect::AssetActivated(AssetActivated { symbol: sym("PSGOLD"), partner_id: 1 }),
        ])
    );
    assert!(r.get_partner_asset(sym("PSGOLD")).unwrap().live);
    assert_eq!(
        r.activate_partner_asset(dao(), sym("PSGOLD")),
        Err(Error::AssetAlreadyLive)
    );
    assert_eq!(
        r.activate_partner_asset(dao(), sym("PNONE")),
        Err(Error::PartnerAssetNotFound)
    );
}

#[test]
fn assets_are_checked() {
    let mut r = joined();
    assert_eq!(
        deploy(&mut r, "SGOLD", 15_000, 12_000, 0, 5),
        Err(Error::SymbolNotPrefixed)
    );
    assert_eq!(
        deploy(&mut r, "PSGOLDGOLD", 15_000, 12_000, 0, 5),
        Err(Error::SymbolTooLong)
    );
    assert_eq!(
        deploy(&mut r, "PSGOLD", 15_000, 12_000, 0, 10_000_000_000_001),
        Err(Error::PartnerCeilingExceeded)
    );
    assert_eq!(
        deploy(&mut r, "PSGOLD", 12_000, 12_000, 0, 5),
        Err(Error::PartnerRatioTooLow)
    );
    assert_eq!(
        deploy(&mut r, "PSGOLD", 15_000, 12_000, 1_501, 5),
        Err(Error::PartnerPenaltyTooHigh)
    );
    assert!(deploy(&mut r, "PSGOLDXYZ", 15_000, 12_000, 0, 5).is_ok());
    assert_eq!(
        deploy(&mut r, "PSGOLDXYZ", 15_000, 12_000, 0, 5),
        Err(Error::AssetAlreadyRegistered)
    );
    r.deactivate_partner(dao(), 1).unwrap();
    assert_eq!(
        deploy(&mut r, "PSX", 15_000, 12_000, 0, 5),
        Err(Error::PartnerNotActive)
    );
    let mut none = setup();
    assert_eq!(
        deploy(&mut none, "PSX", 15_000, 12_000, 0, 5),
        Err(Error::NotAPartner)
    );
}

#[test]
fn revenue_is_credited_and_claimed() {
    let mut r = joined();
    assert_eq!(
        r.credit_partner_revenue(alice(), 1, 70, 4),
        Err(Error::OnlyEarnings)
    );
    assert_eq!(
        r.credit_partner_revenue(earnings(), 1, 70, 4),
        Ok(vec![
            Effect::RequireAuth(earnings()),
            Effect::RevenueForwarded(RevenueForwarded { partner_id: 1, amount: 70, epoch: 4 }),
        ])
    );
    r.credit_partner_revenue(earnings(), 1, 5, 4).unwrap();
    assert_eq!(r.get_epoch_revenue(1, 4), 75);
    assert_eq!(r.get_epoch_revenue(1, 5), 0);
    assert_eq!(
        r.credit_partner_revenue(earnings(), 9, 5, 4),
        Err(Error::PartnerNotFound)
    );
    assert_eq!(
        r.credit_partner_revenue(earnings(), 1, i128::MAX, 4),
        Err(Error::Arithmetic)
    );
    assert_eq!(
        r.claim_revenue(&at(9), alice()),
        Ok((
            75,
            vec![
                Effect::RequireAuth(alice()),
                Effect::Transfer { token: usdc(), from: here(), to: alice(), amount: 75 },
                Effect::RevenueClaimed(RevenueClaimed { partner_owner: alice(), claimable: 75 }),
            ]
        ))
    );
    assert_eq!(r.claim_revenue(&at(9), alice()), Err(Error::NoRevenue));
    assert_eq!(r.claim_revenue(&at(9), bob()), Err(Error::NotAPartner));
    assert_eq!(r.get_partner(1).unwrap().total_earned, 75);
}

#[test]
fn a_deactivated_partner_keeps_what_was_earned() {
    let mut r = joined();
    r.credit_partner_revenue(earnings(), 1, 70, 4).unwrap();
    assert_eq!(
        r.deactivate_partner(dao(), 1),
        Ok(vec![
            Effect::RequireAuth(dao()),
            Effect::PartnerDeactivated(PartnerDeactivated { partner_id: 1 }),
        ])
    );
    assert_eq!(
        r.credit_partner_revenue(earnings(), 1, 1, 4),
        Err(Error::PartnerNotActive)
    );
    assert_eq!(r.claim_revenue(&at(9), alice()).unwrap().0, 70);
    r.reactivate_partner(dao(), 1).unwrap();
    assert!(r.credit_partner_revenue(earnings(), 1, 1, 4).is_ok());
    assert_eq!(r.deactivate_partner(dao(), 9), Err(Error::PartnerNotFound));
    assert_eq!(r.reactivate_partner(dao(), 9), Err(Error::PartnerNotFound));
}

#[test]
fn the_dao_sets_shares() {
    let mut r = joined();
    assert_eq!(r.set_partner_share(dao(), 1, 8_001), Err(Error::ShareTooHigh));
    assert_eq!(r.set_partner_share(dao(), 9, 5), Err(Error::PartnerNotFound));
    r.set_partner_share(dao(), 1, 8_000).unwrap();
    assert_eq!(r.get_revenue_share(1), 8_000);
}

#[test]
fn the_admin_moves_the_dao() {
    let mut r = setup();
    assert_eq!(r.set_dao(bob(), alice()), Err(Error::AdminOnly));
    r.set_dao(admin(), alice()).unwrap();
    let hash = WasmHash { hi: 1, lo: 2 };
    assert_eq!(
        r.upgrade(bob(), hash),
        Ok(vec![Effect::RequireAuth(alice()), Effect::UpdateWasm(hash)])
    );
}
