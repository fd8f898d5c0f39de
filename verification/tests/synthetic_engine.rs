use uruk_protocol::error::Error;
use uruk_protocol::synthetic_engine::{
    AssetConfig, BurnEvent, DepositEvent, Effect, LiquidationEvent, MarketCreatedEvent, MintEvent,
    OpenEvent, SyntheticEngine, Vault, WithdrawEvent,
};
use uruk_protocol::types::{Address, Context, Symbol, WasmHash};

const UNIT: i128 = 10_000_000;

fn addr(n: u128) -> Address {
    Address { contract: false, hi: 0, lo: n }
}

fn sym(text: &str) -> Symbol {
    Symbol::new(text.as_bytes()).unwrap()
}

fn here() -> Address {
    addr(100)
}

fn at(timestamp: u64) -> Context {
    Context { contract: here(), timestamp, sequence: 1 }
}

fn admin() -> Address {
    addr(1)
}

fn oracle() -> Address {
    addr(2)
}

fn registry() -> Address {
    addr(3)
}

fn earnings() -> Address {
    addr(4)
}

fn dao() -> Address {
    addr(5)
}

fn alice() -> Address {
    addr(6)
}

fn bob() -> Address {
    addr(7)
}

fn xlm() -> Address {
    addr(8)
}

fn token() -> Address {
    addr(9)
}

fn sbtc() -> Symbol {
    sym("sBTC")
}

/// A market with a ratio of 150 percent, liquidated under 120, with a penalty
/// of a tenth and a fee of half a percent.
fn setup() -> SyntheticEngine {
    let mut engine = SyntheticEngine::new();
    engine.initialize(admin(), oracle(), registry(), earnings(), dao()).unwrap();
    engine
        .register_asset(
            dao(),
            sbtc(),
            token(),
            sym("BTCUSD"),
            sym("XLMUSD"),
            15_000,
            12_000,
            1_000,
            50,
            1_000 * UNIT,
        )
        .unwrap();
    engine.set_collateral_allowed(dao(), xlm(), true).unwrap();
    engine
}

fn opened() -> SyntheticEngine {
    let mut engine = setup();
    engine.open_vault(&at(1), alice(), sbtc(), xlm(), 300 * UNIT).unwrap();
    engine
}

fn check(user: Address) -> Effect {
    Effect::AssertUserCompliant { registry: registry(), caller: here(), user }
}

fn transfer_check(user: Address, amount: i128) -> Effect {
    Effect::AssertTransferAllowed {
        registry: registry(),
        caller: here(),
        from: user,
        to: user,
        asset: sbtc(),
        amount,
    }
}

#[test]
fn engine_starts_once() {
    let mut engine = SyntheticEngine::new();
    assert_eq!(engine.set_paused(admin(), true), Err(Error::NotInitialised));
    assert_eq!(
        engine.open_vault(&at(0), alice(), sbtc(), xlm(), 1),
        Err(Error::NotInitialised)
    );
    assert_eq!(
        engine.initialize(admin(), oracle(), registry(), earnings(), dao()),
        Ok(vec![Effect::RequireAuth(admin())])
    );
    assert_eq!(
        engine.initialize(admin(), oracle(), registry(), earnings(), dao()),
        Err(Error::AlreadyInitialised)
    );
}

#[test]
fn the_dao_opens_markets() {
    let mut engine = setup();
    let gold = sym("sGOLD");
    assert_eq!(
        engine.register_asset(
            dao(),
            gold,
            token(),
            sym("XAU"),
            sym("XLMUSD"),
            14_000,
            11_000,
            2_000,
            0,
            5
        ),
        Ok(vec![
            Effect::RequireAuth(dao()),
            Effect::MarketCreated(MarketCreatedEvent {
                symbol: gold,
                token: token(),
                oracle_symbol: sym("XAU"),
                coll_oracle_symbol: sym("XLMUSD"),
                min_coll_ratio: 14_000,
                liq_ratio: 11_000,
                liq_penalty: 2_000,
                stab_fee_bps: 0,
                debt_ceiling: 5,
            }),
        ])
    );
    assert_eq!(
        engine.get_asset_config(gold),
        Some(AssetConfig {
            token: token(),
            oracle_symbol: sym("XAU"),
            coll_oracle_sym: sym("XLMUSD"),
            min_coll_ratio: 14_000,
            liq_ratio: 11_000,
            liq_penalty: 2_000,
            stab_fee_bps: 0,
            debt_ceiling: 5,
            enabled: true,
        })
    );
    assert_eq!(engine.prices_of(gold), Some((oracle(), sym("XLMUSD"), sym("XAU"))));
    assert_eq!(engine.prices_of(sym("none")), None);
    let a = sym("a");
    assert_eq!(
        engine.register_asset(admin(), a, token(), a, a, 2, 1, 0, 0, 0),
        Err(Error::DaoOnly)
    );
    assert_eq!(
        engine.register_asset(dao(), a, token(), a, a, 2, 2, 0, 0, 0),
        Err(Error::MinRatioTooLow)
    );
    assert_eq!(
        engine.register_asset(dao(), a, token(), a, a, 2, 1, 2_001, 0, 0),
        Err(Error::PenaltyTooHigh)
    );
    assert_eq!(engine.get_asset_config(a), None);
}

#[test]
fn a_vault_is_opened_with_collateral() {
    let mut engine = setup();
    assert_eq!(
        engine.open_vault(&at(3), alice(), sbtc(), xlm(), 50),
        Ok(vec![
            Effect::RequireAuth(alice()),
            check(alice()),
            transfer_check(alice(), 0),
            Effect::Transfer { token: xlm(), from: alice(), to: here(), amount: 50 },
            Effect::Open(OpenEvent {
                owner: alice(),
                synth_asset: sbtc(),
                collateral_token: xlm(),
                collateral_amount: 50,
            }),
        ])
    );
    assert_eq!(
        engine.get_vault(alice(), sbtc()),
        Some(Vault {
            owner: alice(),
            collateral: 50,
            collateral_tok: xlm(),
            synth_asset: sbtc(),
            debt: 0,
            opened_at: 3,
            last_update: 3,
        })
    );
    assert_eq!(engine.get_vaults_by_owner(alice()), vec![sbtc()]);
    assert_eq!(engine.get_vaults_by_owner(bob()), vec![]);
    assert_eq!(
        engine.open_vault(&at(3), alice(), sbtc(), xlm(), 50),
        Err(Error::VaultAlreadyOpen)
    );
}

#[test]
fn opening_is_checked() {
    let mut engine = setup();
    assert_eq!(
        engine.open_vault(&at(0), alice(), sbtc(), token(), 5),
        Err(Error::CollateralNotWhitelisted)
    );
    assert_eq!(
        engine.open_vault(&at(0), alice(), sym("none"), xlm(), 5),
        Err(Error::AssetNotRegistered)
    );
    assert_eq!(
        engine.open_vault(&at(0), alice(), sbtc(), xlm(), 0),
        Err(Error::CollateralNotPositive)
    );
    engine.set_collateral_allowed(dao(), xlm(), false).unwrap();
    assert_eq!(
        engine.open_vault(&at(0), alice(), sbtc(), xlm(), 5),
        Err(Error::CollateralNotWhitelisted)
    );
}

#[test]
fn collateral_goes_in_and_out() {
    let mut engine = opened();
    assert_eq!(
        engine.deposit_collateral(&at(2), alice(), sbtc(), 25),
        Ok(vec![
            Effect::RequireAuth(alice()),
            check(alice()),
            Effect::Transfer { token: xlm(), from: alice(), to: here(), amount: 25 },
            Effect::Deposit(DepositEvent { owner: alice(), synth_asset: sbtc(), amount: 25 }),
        ])
    );
    assert_eq!(engine.get_vault(alice(), sbtc()).unwrap().collateral, 300 * UNIT + 25);
    // Without debt no price is needed.
    assert_eq!(
        engine.withdraw_collateral(&at(4), alice(), sbtc(), 25, 0, 0),
        Ok(vec![
            Effect::RequireAuth(alice()),
            check(alice()),
            Effect::Transfer { token: xlm(), from: here(), to: alice(), amount: 25 },
            Effect::Withdraw(WithdrawEvent { owner: alice(), synth_asset: sbtc(), amount: 25 }),
        ])
    );
    let vault = engine.get_vault(alice(), sbtc()).unwrap();
    assert_eq!(vault.collateral, 300 * UNIT);
    assert_eq!(vault.last_update, 4);
    assert_eq!(
        engine.deposit_collateral(&at(2), alice(), sbtc(), 0),
        Err(Error::AmountNotPositive)
    );
    assert_eq!(
        engine.deposit_collateral(&at(2), bob(), sbtc(), 1),
        Err(Error::VaultNotFound)
    );
    assert_eq!(
        engine.deposit_collateral(&at(2), alice(), sbtc(), i128::MAX),
        Err(Error::Arithmetic)
    );
    assert_eq!(
        engine.withdraw_collateral(&at(2), alice(), sbtc(), 300 * UNIT + 1, 1, 1),
        Err(Error::InsufficientCollateral)
    );
    assert_eq!(
        engine.withdraw_collateral(&at(2), alice(), sbtc(), 0, 1, 1),
        Err(Error::AmountNotPositive)
    );
}

#[test]
fn minting_needs_cover() {
    // Collateral worth 300 carries a debt of 200 at 150 percent, and no more.
    let mut engine = opened();
    assert_eq!(
        engine.mint_synth(&at(2), alice(), sbtc(), 200 * UNIT + 1, UNIT, UNIT),
        Err(Error::CollateralRatioTooLow)
    );
    let amount = 200 * UNIT;
    let fee = UNIT;
    assert_eq!(
        engine.mint_synth(&at(2), alice(), sbtc(), amount, UNIT, UNIT),
        Ok(vec![
            Effect::RequireAuth(alice()),
            check(alice()),
            transfer_check(alice(), amount),
            Effect::Mint { token: token(), to: alice(), amount },
            Effect::Burn { token: token(), from: alice(), amount: fee },
            Effect::ReceiveRevenue {
                distributor: earnings(),
                sender: here(),
                token: token(),
                amount: fee,
                source: sym("stabfee"),
                partner_id: 0,
            },
            Effect::Minted(MintEvent { owner: alice(), synth_asset: sbtc(), amount }),
        ])
    );
    assert_eq!(engine.get_vault(alice(), sbtc()).unwrap().debt, amount);
    assert_eq!(engine.get_debt_total(sbtc()), amount);
    assert_eq!(engine.get_cr_bps(alice(), sbtc(), UNIT, UNIT), Ok(15_000));
    assert_eq!(
        engine.withdraw_collateral(&at(2), alice(), sbtc(), 1, UNIT, UNIT),
        Err(Error::CollateralRatioTooLow)
    );
    assert!(engine.withdraw_collateral(&at(2), alice(), sbtc(), UNIT, 2 * UNIT, UNIT).is_ok());
}

#[test]
fn a_mint_too_small_for_a_fee_pays_none() {
    let mut engine = opened();
    let effects = engine.mint_synth(&at(2), alice(), sbtc(), 199, UNIT, UNIT).unwrap();
    assert_eq!(effects.len(), 5);
    let effects = engine.mint_synth(&at(2), alice(), sbtc(), 200, UNIT, UNIT).unwrap();
    assert_eq!(
        effects[4],
        Effect::Burn { token: token(), from: alice(), amount: 1 }
    );
}

#[test]
fn minting_stops_at_the_ceiling() {
    let mut engine = opened();
    engine.set_debt_ceiling(dao(), sbtc(), 100).unwrap();
    assert_eq!(
        engine.mint_synth(&at(2), alice(), sbtc(), 101, UNIT, UNIT),
        Err(Error::DebtCeilingExceeded)
    );
    assert!(engine.mint_synth(&at(2), alice(), sbtc(), 100, UNIT, UNIT).is_ok());
    assert_eq!(
        engine.mint_synth(&at(2), alice(), sbtc(), 1, UNIT, UNIT),
        Err(Error::DebtCeilingExceeded)
    );
    assert_eq!(engine.set_debt_ceiling(admin(), sbtc(), 5), Err(Error::DaoOnly));
    assert_eq!(
        engine.set_debt_ceiling(dao(), sym("none"), 5),
        Err(Error::AssetNotConfigured)
    );
}

#[test]
fn minting_is_checked() {
    let mut engine = opened();
    assert_eq!(
        engine.mint_synth(&at(2), alice(), sbtc(), 0, UNIT, UNIT),
        Err(Error::AmountNotPositive)
    );
    assert_eq!(
        engine.mint_synth(&at(2), bob(), sbtc(), 1, UNIT, UNIT),
        Err(Error::VaultNotFound)
    );
    // A sum that would not fit stops at the widest ceiling too.
    engine.set_debt_ceiling(dao(), sbtc(), i128::MAX).unwrap();
    engine.mint_synth(&at(2), alice(), sbtc(), 5, UNIT, UNIT).unwrap();
    assert_eq!(
        engine.mint_synth(&at(2), alice(), sbtc(), i128::MAX, UNIT, 0),
        Err(Error::Arithmetic)
    );
}

#[test]
fn repaying_undoes_minting() {
    let mut engine = opened();
    engine.mint_synth(&at(2), alice(), sbtc(), 1000, UNIT, UNIT).unwrap();
    assert_eq!(
        engine.burn_synth(&at(3), alice(), sbtc(), 400),
        Ok(vec![
            Effect::RequireAuth(alice()),
            check(alice()),
            Effect::Burn { token: token(), from: alice(), amount: 400 },
            Effect::Burnt(BurnEvent { owner: alice(), synth_asset: sbtc(), amount: 400 }),
        ])
    );
    assert_eq!(engine.get_debt_total(sbtc()), 600);
    // More than the debt repays the debt.
    let effects = engine.burn_synth(&at(3), alice(), sbtc(), 5000).unwrap();
    assert_eq!(effects[2], Effect::Burn { token: token(), from: alice(), amount: 600 });
    assert_eq!(engine.get_vault(alice(), sbtc()).unwrap().debt, 0);
    assert_eq!(engine.get_debt_total(sbtc()), 0);
    assert_eq!(
        engine.burn_synth(&at(3), alice(), sbtc(), 0),
        Err(Error::AmountNotPositive)
    );
    assert_eq!(engine.burn_synth(&at(3), bob(), sbtc(), 1), Err(Error::VaultNotFound));
}

#[test]
fn a_healthy_vault_is_not_liquidated() {
    let mut engine = opened();
    engine.mint_synth(&at(2), alice(), sbtc(), 200 * UNIT, UNIT, UNIT).unwrap();
    // 240 over 200 is 120 percent.
    let price = UNIT * 8 / 10;
    assert_eq!(engine.get_cr_bps(alice(), sbtc(), price, UNIT), Ok(12_000));
    assert_eq!(engine.is_liquidatable(alice(), sbtc(), price, UNIT), Ok(false));
    assert_eq!(
        engine.liquidate(&at(3), bob(), alice(), sbtc(), UNIT, price, UNIT),
        Err(Error::NotUndercollateralised)
    );
}

#[test]
fn a_liquidator_gets_the_penalty() {
    let mut engine = opened();
    engine.mint_synth(&at(2), alice(), sbtc(), 200 * UNIT, UNIT, UNIT).unwrap();
    // 225 over 200.
    let price = UNIT * 3 / 4;
    assert_eq!(engine.is_liquidatable(alice(), sbtc(), price, UNIT), Ok(true));
    let repay = 30 * UNIT;
    // Thirty repaid is thirty-three owed, which is forty-four of collateral.
    let award = 44 * UNIT;
    assert_eq!(
        engine.liquidate(&at(3), bob(), alice(), sbtc(), repay, price, UNIT),
        Ok(vec![
            Effect::RequireAuth(bob()),
            check(bob()),
            Effect::Burn { token: token(), from: bob(), amount: repay },
            Effect::Transfer { token: xlm(), from: here(), to: bob(), amount: award },
            Effect::Liquidated(LiquidationEvent {
                owner: alice(),
                synth_asset: sbtc(),
                collateral_seized: award,
            }),
        ])
    );
    let vault = engine.get_vault(alice(), sbtc()).unwrap();
    assert_eq!(vault.debt, 170 * UNIT);
    assert_eq!(vault.collateral, 256 * UNIT);
    assert_eq!(engine.get_debt_total(sbtc()), 170 * UNIT);
}

#[test]
fn a_vault_without_debt_is_closed() {
    let mut engine = opened();
    engine.set_stability_pool(admin(), addr(50)).unwrap();
    engine.mint_synth(&at(2), alice(), sbtc(), 200 * UNIT, UNIT, UNIT).unwrap();
    let price = UNIT * 3 / 4;
    let effects = engine
        .liquidate(&at(3), bob(), alice(), sbtc(), 500 * UNIT, price, UNIT)
        .unwrap();
    // 200 repaid, 220 owed at 0.75: 293.3333333 of the 300.
    let award = 2_933_333_333;
    assert_eq!(
        effects[3],
        Effect::Transfer { token: xlm(), from: here(), to: bob(), amount: award }
    );
    assert_eq!(
        effects[4],
        Effect::Transfer {
            token: xlm(),
            from: here(),
            to: addr(50),
            amount: 300 * UNIT - award,
        }
    );
    assert_eq!(engine.get_vault(alice(), sbtc()), None);
    assert_eq!(engine.get_debt_total(sbtc()), 0);
    assert_eq!(engine.get_vaults_by_owner(alice()), vec![sbtc()]);
    assert_eq!(engine.is_liquidatable(alice(), sbtc(), price, UNIT), Ok(false));
    assert_eq!(
        engine.get_cr_bps(alice(), sbtc(), price, UNIT),
        Err(Error::VaultNotFound)
    );
    assert!(engine.open_vault(&at(4), alice(), sbtc(), xlm(), 5).is_ok());
}

#[test]
fn a_liquidator_gets_no_more_than_the_collateral() {
    let mut engine = opened();
    engine.mint_synth(&at(2), alice(), sbtc(), 200 * UNIT, UNIT, UNIT).unwrap();
    let price = UNIT / 2;
    let effects = engine
        .liquidate(&at(3), bob(), alice(), sbtc(), 200 * UNIT, price, UNIT)
        .unwrap();
    assert_eq!(
        effects[3],
        Effect::Transfer { token: xlm(), from: here(), to: bob(), amount: 300 * UNIT }
    );
    assert_eq!(effects.len(), 5);
    assert_eq!(engine.get_vault(alice(), sbtc()), None);
}

#[test]
fn liquidations_are_refused() {
    let mut engine = opened();
    assert_eq!(
        engine.liquidate(&at(3), bob(), alice(), sbtc(), 0, UNIT, UNIT),
        Err(Error::RepayNotPositive)
    );
    assert_eq!(
        engine.liquidate(&at(3), bob(), bob(), sbtc(), 1, UNIT, UNIT),
        Err(Error::VaultNotFound)
    );
    // No debt, no liquidation.
    assert_eq!(
        engine.liquidate(&at(3), bob(), alice(), sbtc(), 1, UNIT, UNIT),
        Err(Error::NotUndercollateralised)
    );
    assert_eq!(engine.get_cr_bps(alice(), sbtc(), UNIT, UNIT), Ok(i128::MAX));
    engine.mint_synth(&at(2), alice(), sbtc(), 5, UNIT, UNIT).unwrap();
    assert_eq!(
        engine.liquidate(&at(3), bob(), alice(), sbtc(), 1, i128::MAX, UNIT),
        Err(Error::Arithmetic)
    );
    assert_eq!(
        engine.get_cr_bps(alice(), sbtc(), UNIT, 0),
        Err(Error::Arithmetic)
    );
}

#[test]
fn a_disabled_market_lets_people_out() {
    let mut engine = opened();
    engine.mint_synth(&at(2), alice(), sbtc(), 1000, UNIT, UNIT).unwrap();
    assert_eq!(engine.set_asset_enabled(admin(), sbtc(), false), Err(Error::DaoOnly));
    assert_eq!(
        engine.set_asset_enabled(dao(), sym("none"), false),
        Err(Error::AssetNotConfigured)
    );
    engine.set_asset_enabled(dao(), sbtc(), false).unwrap();
    assert_eq!(
        engine.open_vault(&at(3), bob(), sbtc(), xlm(), 5),
        Err(Error::AssetDisabled)
    );
    assert_eq!(
        engine.mint_synth(&at(3), alice(), sbtc(), 1, UNIT, UNIT),
        Err(Error::AssetDisabled)
    );
    assert!(engine.withdraw_collateral(&at(3), alice(), sbtc(), 1, UNIT, UNIT).is_ok());
    assert!(engine.burn_synth(&at(3), alice(), sbtc(), 400).is_ok());
    assert!(engine.liquidate(&at(3), bob(), alice(), sbtc(), 100, 1, UNIT).is_ok());
}

#[test]
fn a_pause_stops_all_but_repaying() {
    let mut engine = opened();
    engine.mint_synth(&at(2), alice(), sbtc(), 1000, UNIT, UNIT).unwrap();
    assert_eq!(engine.set_paused(dao(), true), Err(Error::AdminOnly));
    engine.set_paused(admin(), true).unwrap();
    assert!(engine.is_paused());
    let paused = Err(Error::ProtocolPaused);
    assert_eq!(engine.open_vault(&at(3), bob(), sbtc(), xlm(), 5), paused);
    assert_eq!(engine.deposit_collateral(&at(3), alice(), sbtc(), 5), paused);
    assert_eq!(engine.mint_synth(&at(3), alice(), sbtc(), 5, UNIT, UNIT), paused);
    assert_eq!(engine.withdraw_collateral(&at(3), alice(), sbtc(), 5, UNIT, UNIT), paused);
    assert_eq!(engine.liquidate(&at(3), bob(), alice(), sbtc(), 5, 1, UNIT), paused);
    assert!(engine.burn_synth(&at(3), alice(), sbtc(), 5).is_ok());
}

#[test]
fn the_dao_replaces_the_engine() {
    let mut engine = setup();
    let hash = WasmHash { hi: 3, lo: 4 };
    assert_eq!(
        engine.upgrade(alice(), hash),
        Ok(vec![Effect::RequireAuth(dao()), Effect::UpdateWasm(hash)])
    );
    assert_eq!(engine.set_stability_pool(dao(), addr(50)), Err(Error::AdminOnly));
}

#[test]
fn debts_add_up() {
    let mut engine = opened();
    engine.open_vault(&at(1), bob(), sbtc(), xlm(), 300 * UNIT).unwrap();
    engine.mint_synth(&at(2), alice(), sbtc(), 70, UNIT, UNIT).unwrap();
    engine.mint_synth(&at(2), bob(), sbtc(), 30, UNIT, UNIT).unwrap();
    engine.burn_synth(&at(2), alice(), sbtc(), 20).unwrap();
    let sum = engine.get_vault(alice(), sbtc()).unwrap().debt
        + engine.get_vault(bob(), sbtc()).unwrap().debt;
    assert_eq!(sum, 80);
    assert_eq!(engine.get_debt_total(sbtc()), 80);
}
