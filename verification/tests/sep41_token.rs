use uruk_protocol::error::Error;
use uruk_protocol::sep41_token::{
    ApproveEvent, BurnEvent, ClawbackEvent, Effect, FreezeEvent, MintEvent, SyntheticToken,
    TransferEvent,
};
use uruk_protocol::types::{Address, Context};

fn addr(n: u128) -> Address {
    Address { contract: false, hi: 0, lo: n }
}

fn ledger(sequence: u32) -> Context {
    Context { contract: addr(100), timestamp: 0, sequence }
}

fn admin() -> Address {
    addr(1)
}

fn minter() -> Address {
    addr(2)
}

fn alice() -> Address {
    addr(3)
}

fn bob() -> Address {
    addr(4)
}

fn carol() -> Address {
    addr(5)
}

fn setup() -> SyntheticToken {
    let mut token = SyntheticToken::new();
    token
        .initialize(admin(), minter(), String::from("Stellar Bitcoin"), String::from("sBTC"), 7)
        .unwrap();
    token.mint(alice(), 1000).unwrap();
    token
}

fn total_of_all(token: &SyntheticToken) -> i128 {
    token.balance(admin()) + token.balance(alice()) + token.balance(bob()) + token.balance(carol())
}

#[test]
fn token_starts_once() {
    let mut token = SyntheticToken::new();
    assert_eq!(token.name(), Err(Error::NotInitialised));
    assert_eq!(token.symbol(), Err(Error::NotInitialised));
    assert_eq!(token.decimals(), Err(Error::NotInitialised));
    assert_eq!(token.mint(alice(), 1), Err(Error::NotInitialised));
    assert_eq!(token.set_paused(admin(), true), Err(Error::NotInitialised));
    let name = String::from("Stellar Bitcoin");
    let symbol = String::from("sBTC");
    assert_eq!(
        token.initialize(admin(), minter(), name.clone(), symbol.clone(), 7),
        Ok(vec![])
    );
    assert_eq!(token.name(), Ok(name.clone()));
    assert_eq!(token.symbol(), Ok(symbol.clone()));
    assert_eq!(token.decimals(), Ok(7));
    assert_eq!(token.total_supply(), 0);
    assert_eq!(
        token.initialize(admin(), minter(), name, symbol, 7),
        Err(Error::AlreadyInitialised)
    );
}

#[test]
fn minting_is_up_to_the_engine() {
    let mut token = setup();
    assert_eq!(
        token.mint(bob(), 50),
        Ok(vec![
            Effect::RequireAuth(minter()),
            Effect::Mint(MintEvent { to: bob(), amount: 50 }),
        ])
    );
    assert_eq!(token.balance(bob()), 50);
    assert_eq!(token.total_supply(), 1050);
    assert_eq!(token.mint(bob(), 0), Err(Error::AmountNotPositive));
    assert_eq!(token.mint(bob(), i128::MAX), Err(Error::Arithmetic));
    // The balance would fit, the supply would not.
    assert_eq!(token.mint(carol(), i128::MAX), Err(Error::Arithmetic));
    assert_eq!(token.balance(carol()), 0);
    token.set_minter(admin(), carol()).unwrap();
    assert_eq!(token.mint(bob(), 1).unwrap()[0], Effect::RequireAuth(carol()));
}

#[test]
fn transfers_move_tokens() {
    let mut token = setup();
    assert_eq!(
        token.transfer(alice(), bob(), 300),
        Ok(vec![
            Effect::RequireAuth(alice()),
            Effect::Transfer(TransferEvent { from: alice(), to: bob(), amount: 300 }),
        ])
    );
    assert_eq!(token.balance(alice()), 700);
    assert_eq!(token.balance(bob()), 300);
    assert_eq!(token.total_supply(), 1000);
    assert_eq!(token.transfer(alice(), bob(), 701), Err(Error::InsufficientBalance));
    assert_eq!(token.transfer(alice(), bob(), 0), Err(Error::AmountNotPositive));
    assert_eq!(token.transfer(alice(), bob(), -1), Err(Error::AmountNotPositive));
}

#[test]
fn a_transfer_to_oneself_changes_nothing() {
    let mut token = setup();
    token.transfer(alice(), alice(), 400).unwrap();
    assert_eq!(token.balance(alice()), 1000);
    assert_eq!(token.transfer(alice(), alice(), 1001), Err(Error::InsufficientBalance));
}

#[test]
fn allowances_are_used_up() {
    let mut token = setup();
    assert_eq!(
        token.approve(&ledger(10), alice(), bob(), 500, 20),
        Ok(vec![
            Effect::RequireAuth(alice()),
            Effect::ExtendAllowance {
                from: alice(),
                spender: bob(),
                threshold: 0,
                extend_to: 20,
            },
            Effect::Approve(ApproveEvent {
                from: alice(),
                spender: bob(),
                amount: 500,
                expiration_ledger: 20,
            }),
        ])
    );
    assert_eq!(token.allowance(alice(), bob()), 500);
    assert_eq!(token.allowance(bob(), alice()), 0);
    assert_eq!(
        token.transfer_from(bob(), alice(), carol(), 200),
        Ok(vec![
            Effect::RequireAuth(bob()),
            Effect::Transfer(TransferEvent { from: alice(), to: carol(), amount: 200 }),
        ])
    );
    assert_eq!(token.allowance(alice(), bob()), 300);
    assert_eq!(token.balance(carol()), 200);
    assert_eq!(
        token.transfer_from(bob(), alice(), carol(), 301),
        Err(Error::AllowanceExceeded)
    );
    assert_eq!(
        token.burn_from(bob(), alice(), 100),
        Ok(vec![
            Effect::RequireAuth(bob()),
            Effect::Burn(BurnEvent { from: alice(), amount: 100 }),
        ])
    );
    assert_eq!(token.allowance(alice(), bob()), 200);
    assert_eq!(token.balance(alice()), 700);
    assert_eq!(token.total_supply(), 900);
    assert_eq!(token.burn_from(bob(), alice(), 201), Err(Error::AllowanceExceeded));
    assert_eq!(token.burn_from(bob(), alice(), 0), Err(Error::AmountNotPositive));
    assert_eq!(token.burn_from(bob(), alice(), -1), Err(Error::AmountNotPositive));
    assert_eq!(token.burn_from(bob(), alice(), i128::MIN), Err(Error::AmountNotPositive));
    assert_eq!(token.total_supply(), 900);
}

#[test]
fn an_allowance_beyond_the_balance_does_not_help() {
    let mut token = setup();
    token.approve(&ledger(1), alice(), bob(), 5000, 1).unwrap();
    assert_eq!(
        token.transfer_from(bob(), alice(), carol(), 1001),
        Err(Error::InsufficientBalance)
    );
    assert_eq!(token.allowance(alice(), bob()), 5000);
    assert_eq!(token.burn_from(bob(), alice(), 1001), Err(Error::InsufficientBalance));
}

#[test]
fn allowances_are_checked() {
    let mut token = setup();
    assert_eq!(
        token.approve(&ledger(10), alice(), bob(), -1, 20),
        Err(Error::AmountNegative)
    );
    assert_eq!(
        token.approve(&ledger(10), alice(), bob(), 5, 9),
        Err(Error::ExpirationInPast)
    );
    assert!(token.approve(&ledger(10), alice(), bob(), 0, 10).is_ok());
}

#[test]
fn burning_undoes_minting() {
    let mut token = setup();
    token.mint(bob(), 77).unwrap();
    assert_eq!(
        token.burn(bob(), 77),
        Ok(vec![
            Effect::RequireAuth(bob()),
            Effect::Burn(BurnEvent { from: bob(), amount: 77 }),
        ])
    );
    assert_eq!(token.balance(bob()), 0);
    assert_eq!(token.total_supply(), 1000);
    assert_eq!(token.burn(bob(), 1), Err(Error::InsufficientBalance));
    assert_eq!(token.burn(bob(), 0), Err(Error::AmountNotPositive));
}

#[test]
fn frozen_accounts_neither_send_nor_receive() {
    let mut token = setup();
    token.approve(&ledger(1), alice(), carol(), 100, 9).unwrap();
    assert_eq!(
        token.set_frozen(admin(), alice(), true),
        Ok(vec![
            Effect::RequireAuth(admin()),
            Effect::Freeze(FreezeEvent { account: alice(), frozen: true }),
        ])
    );
    assert!(token.is_frozen(alice()));
    assert_eq!(token.transfer(alice(), bob(), 1), Err(Error::AccountFrozen));
    assert_eq!(token.transfer(bob(), alice(), 1), Err(Error::AccountFrozen));
    assert_eq!(token.transfer_from(carol(), alice(), bob(), 1), Err(Error::AccountFrozen));
    assert_eq!(token.mint(alice(), 1), Err(Error::AccountFrozen));
    token.set_frozen(admin(), alice(), false).unwrap();
    assert!(token.transfer(alice(), bob(), 1).is_ok());
}

#[test]
fn only_frozen_accounts_are_clawed_back() {
    let mut token = setup();
    assert_eq!(token.clawback(admin(), alice(), 10), Err(Error::NotFrozen));
    token.set_frozen(admin(), alice(), true).unwrap();
    assert_eq!(token.clawback(bob(), alice(), 10), Err(Error::AdminOnly));
    assert_eq!(
        token.clawback(admin(), alice(), 600),
        Ok(vec![
            Effect::RequireAuth(admin()),
            Effect::Clawback(ClawbackEvent { from: alice(), to: admin(), amount: 600 }),
        ])
    );
    assert_eq!(token.balance(alice()), 400);
    assert_eq!(token.balance(admin()), 600);
    assert_eq!(token.total_supply(), 1000);
    assert_eq!(token.clawback(admin(), alice(), 401), Err(Error::InsufficientBalance));
    assert_eq!(token.clawback(admin(), alice(), 0), Err(Error::AmountNotPositive));
    assert_eq!(token.clawback(admin(), alice(), -1), Err(Error::AmountNotPositive));
    assert_eq!(token.balance(admin()), 600);
}

#[test]
fn a_pause_stops_transfers_mints_and_burns() {
    let mut token = setup();
    token.approve(&ledger(1), alice(), bob(), 100, 9).unwrap();
    assert_eq!(
        token.set_paused(admin(), true),
        Ok(vec![Effect::RequireAuth(admin())])
    );
    assert!(token.is_paused());
    assert_eq!(token.transfer(alice(), bob(), 1), Err(Error::TokenPaused));
    assert_eq!(token.transfer_from(bob(), alice(), bob(), 1), Err(Error::TokenPaused));
    assert_eq!(token.mint(alice(), 1), Err(Error::TokenPaused));
    assert_eq!(token.burn(alice(), 1), Err(Error::TokenPaused));
    token.set_paused(admin(), false).unwrap();
    assert!(token.transfer(alice(), bob(), 1).is_ok());
}

#[test]
fn the_admin_hands_the_role_on() {
    let mut token = setup();
    assert_eq!(token.set_admin(alice(), bob()), Err(Error::AdminOnly));
    token.set_admin(admin(), bob()).unwrap();
    assert_eq!(token.set_paused(admin(), true), Err(Error::AdminOnly));
    assert_eq!(token.set_minter(admin(), carol()), Err(Error::AdminOnly));
    assert_eq!(token.set_frozen(admin(), alice(), true), Err(Error::AdminOnly));
    assert!(token.set_paused(bob(), true).is_ok());
}

#[test]
fn balances_add_up_to_the_supply() {
    let mut token = setup();
    token.mint(bob(), 250).unwrap();
    token.transfer(alice(), carol(), 123).unwrap();
    token.burn(carol(), 23).unwrap();
    token.set_frozen(admin(), bob(), true).unwrap();
    token.clawback(admin(), bob(), 200).unwrap();
    assert_eq!(token.total_supply(), 1227);
    assert_eq!(total_of_all(&token), token.total_supply());
}

#[test]
fn an_approval_replaces_the_one_before() {
    let mut token = setup();
    token.approve(&ledger(5), alice(), bob(), 300, 9).unwrap();
    token.approve(&ledger(5), alice(), bob(), 20, 5).unwrap();
    assert_eq!(token.allowance(alice(), bob()), 20);
    assert_eq!(token.balance(alice()), 1000);
    token.approve(&ledger(5), alice(), bob(), 0, 9).unwrap();
    assert_eq!(token.transfer_from(bob(), alice(), carol(), 1), Err(Error::AllowanceExceeded));
}

#[test]
fn nobody_else_lowers_a_balance() {
    let mut token = setup();
    assert_eq!(token.transfer_from(bob(), alice(), bob(), 1), Err(Error::AllowanceExceeded));
    assert_eq!(token.burn_from(bob(), alice(), 1), Err(Error::AllowanceExceeded));
    assert_eq!(token.clawback(admin(), alice(), 1), Err(Error::NotFrozen));
    assert_eq!(token.balance(alice()), 1000);
}
