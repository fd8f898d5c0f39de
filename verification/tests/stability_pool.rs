use uruk_protocol::arith;
use uruk_protocol::error::Error;
use uruk_protocol::stability_pool::stakes::Stakes;
use uruk_protocol::stability_pool::{
    AbsorbLiquidationEvent, ClaimGainsEvent, Deposit, DepositEvent, Effect, PoolState, Snapshot,
    StabilityPool, WithdrawEvent,
};
use uruk_protocol::types::{Address, Context, Symbol, WasmHash};

const ONE: i128 = 1_000_000_000_000;

fn addr(n: u128) -> Address {
    Address { contract: false, hi: 0, lo: n }
}

fn here() -> Address {
    addr(100)
}

fn at(timestamp: u64) -> Context {
    Context { contract: here(), timestamp, sequence: 1 }
}

fn admin() -> Address {
    addr(1)
}

fn usdc() -> Address {
    addr(2)
}

fn engine() -> Address {
    addr(3)
}

fn dao() -> Address {
    addr(4)
}

fn registry() -> Address {
    addr(5)
}

fn alice() -> Address {
    addr(6)
}

fn bob() -> Address {
    addr(7)
}

fn xlm() -> Address {
    addr(8)
}

fn setup() -> StabilityPool {
    let mut pool = StabilityPool::new();
    pool.initialize(admin(), usdc(), engine(), dao(), registry()).unwrap();
    pool
}

fn check(user: Address) -> Effect {
    Effect::AssertUserCompliant { registry: registry(), caller: here(), user }
}

#[test]
fn pool_starts_once() {
    let mut pool = StabilityPool::new();
    assert_eq!(pool.deposit(&at(0), alice(), 5), Err(Error::NotInitialised));
    assert_eq!(pool.withdraw(&at(0), alice(), 5), Err(Error::NotInitialised));
    assert_eq!(pool.get_state(), Err(Error::NotInitialised));
    assert_eq!(pool.get_total_deposits(), Err(Error::NotInitialised));
    assert_eq!(
        pool.initialize(admin(), usdc(), engine(), dao(), registry()),
        Ok(vec![Effect::RequireAuth(admin())])
    );
    assert_eq!(
        pool.get_state(),
        Ok(PoolState {
            total_deposits: 0,
            p: ONE,
            epoch: 0,
            scale: 0,
            sum_coll: 0,
            total_coll_gained: 0,
            total_liq_count: 0,
            paused: false,
        })
    );
    assert_eq!(
        pool.initialize(admin(), usdc(), engine(), dao(), registry()),
        Err(Error::AlreadyInitialised)
    );
}

#[test]
fn deposits_go_in_and_out() {
    let mut pool = setup();
    assert_eq!(
        pool.deposit(&at(7), alice(), 1000),
        Ok(vec![
            Effect::RequireAuth(alice()),
            check(alice()),
            Effect::Transfer { token: usdc(), from: alice(), to: here(), amount: 1000 },
            Effect::Deposit(DepositEvent { depositor: alice(), amount: 1000 }),
        ])
    );
    assert_eq!(
        pool.get_deposit(alice()),
        Some(Deposit {
            initial_value: 1000,
            snapshot: Snapshot { p_value: ONE, sum_coll: 0, epoch: 0, scale: 0 },
            deposited_at: 7,
        })
    );
    assert_eq!(pool.get_total_deposits(), Ok(1000));
    assert_eq!(
        pool.withdraw(&at(8), alice(), 400),
        Ok((
            400,
            vec![
                Effect::RequireAuth(alice()),
                check(alice()),
                Effect::Transfer { token: usdc(), from: here(), to: alice(), amount: 400 },
                Effect::Withdraw(WithdrawEvent { depositor: alice(), amount: 400 }),
            ]
        ))
    );
    assert_eq!(pool.get_total_deposits(), Ok(600));
    assert_eq!(pool.get_compounded_deposit(alice()), Ok(600));
    // More than there is gives all there is.
    assert_eq!(pool.withdraw(&at(9), alice(), 5000).unwrap().0, 600);
    assert_eq!(pool.get_total_deposits(), Ok(0));
    assert_eq!(pool.withdraw(&at(9), alice(), 1), Err(Error::NothingToWithdraw));
    assert_eq!(pool.withdraw(&at(9), alice(), -1), Err(Error::NothingToWithdraw));
    assert_eq!(pool.withdraw(&at(9), bob(), 1), Err(Error::NoDeposit));
}

#[test]
fn a_second_deposit_keeps_the_first_date() {
    let mut pool = setup();
    pool.deposit(&at(7), alice(), 1000).unwrap();
    pool.deposit(&at(9), alice(), 500).unwrap();
    let dep = pool.get_deposit(alice()).unwrap();
    assert_eq!(dep.initial_value, 1500);
    assert_eq!(dep.deposited_at, 7);
}

#[test]
fn deposits_are_checked() {
    let mut pool = setup();
    assert_eq!(pool.deposit(&at(0), alice(), 0), Err(Error::AmountNotPositive));
    pool.deposit(&at(0), alice(), i128::MAX).unwrap();
    assert_eq!(pool.deposit(&at(0), alice(), 1), Err(Error::Arithmetic));
    assert_eq!(pool.deposit(&at(0), bob(), 1), Err(Error::Arithmetic));
    assert_eq!(pool.get_deposit(bob()), None);
    // However much it is, it comes out again.
    assert_eq!(pool.get_compounded_deposit(alice()), Ok(i128::MAX));
    assert_eq!(pool.withdraw(&at(0), alice(), i128::MAX).unwrap().0, i128::MAX);
    assert_eq!(pool.get_total_deposits(), Ok(0));
}

#[test]
fn a_liquidation_shares_out_the_collateral() {
    let mut pool = setup();
    pool.deposit(&at(0), alice(), 3000).unwrap();
    pool.deposit(&at(0), bob(), 1000).unwrap();
    assert_eq!(
        pool.absorb_liquidation(&at(0), engine(), 1000, 800, xlm()),
        Ok(vec![
            Effect::RequireAuth(engine()),
            Effect::Transfer { token: xlm(), from: engine(), to: here(), amount: 800 },
            Effect::Transfer { token: usdc(), from: here(), to: engine(), amount: 1000 },
            Effect::Absorb(AbsorbLiquidationEvent {
                engine: engine(),
                debt_absorbed: 1000,
                collateral_reward: 800,
            }),
        ])
    );
    assert_eq!(
        pool.get_state(),
        Ok(PoolState {
            total_deposits: 3000,
            p: 750_000_000_000,
            epoch: 0,
            scale: 0,
            sum_coll: 200_000_000_000,
            total_coll_gained: 800,
            total_liq_count: 1,
            paused: false,
        })
    );
    assert_eq!(pool.get_compounded_deposit(alice()), Ok(2250));
    assert_eq!(pool.get_compounded_deposit(bob()), Ok(750));
    assert_eq!(pool.get_collateral_gain(alice()), Ok(600));
    assert_eq!(pool.get_collateral_gain(bob()), Ok(200));
    assert_eq!(pool.get_compounded_deposit(xlm()), Ok(0));
    assert_eq!(pool.get_collateral_gain(xlm()), Ok(0));
}

#[test]
fn gains_are_claimed_once() {
    let mut pool = setup();
    pool.deposit(&at(0), alice(), 1000).unwrap();
    pool.absorb_liquidation(&at(0), engine(), 100, 50, xlm()).unwrap();
    let event = Effect::Claim(ClaimGainsEvent {
        depositor: alice(),
        gain_type: Symbol::new(b"coll").unwrap(),
        amount: 50,
    });
    assert_eq!(
        pool.claim_gains(&at(0), alice()),
        Ok((50, vec![Effect::RequireAuth(alice()), check(alice()), event]))
    );
    assert_eq!(pool.get_collateral_gain(alice()), Ok(0));
    // The claim gives back nothing of what the liquidation took.
    assert_eq!(pool.get_compounded_deposit(alice()), Ok(900));
    assert_eq!(
        pool.claim_gains(&at(0), alice()),
        Ok((0, vec![Effect::RequireAuth(alice()), check(alice())]))
    );
    // Without a deposit there is nothing to claim, and that is no error.
    assert_eq!(
        pool.claim_gains(&at(0), bob()),
        Ok((0, vec![Effect::RequireAuth(bob()), check(bob())]))
    );
}

#[test]
fn gains_are_claimed_with_a_withdrawal() {
    let mut pool = setup();
    pool.deposit(&at(0), alice(), 1000).unwrap();
    pool.absorb_liquidation(&at(0), engine(), 100, 50, xlm()).unwrap();
    let (out, effects) = pool.withdraw(&at(0), alice(), 300).unwrap();
    assert_eq!(out, 300);
    assert_eq!(effects.len(), 5);
    assert_eq!(pool.get_deposit(alice()).unwrap().initial_value, 600);
    assert_eq!(pool.get_total_deposits(), Ok(600));
    // All that the liquidation left comes out, and no more.
    assert_eq!(pool.withdraw(&at(0), alice(), 2000).unwrap().0, 600);
    assert_eq!(pool.get_total_deposits(), Ok(0));
}

#[test]
fn a_second_deposit_adds_to_what_is_left() {
    let mut pool = setup();
    pool.deposit(&at(0), alice(), 1000).unwrap();
    pool.absorb_liquidation(&at(0), engine(), 400, 50, xlm()).unwrap();
    let effects = pool.deposit(&at(0), alice(), 100).unwrap();
    assert_eq!(effects.len(), 5);
    assert_eq!(pool.get_deposit(alice()).unwrap().initial_value, 700);
    assert_eq!(pool.get_compounded_deposit(alice()), Ok(700));
    assert_eq!(pool.get_total_deposits(), Ok(700));
    assert_eq!(pool.get_collateral_gain(alice()), Ok(0));
    // Withdrawing the second deposit leaves what there was before it.
    assert_eq!(pool.withdraw(&at(0), alice(), 100).unwrap().0, 100);
    assert_eq!(pool.get_compounded_deposit(alice()), Ok(600));
    assert_eq!(pool.get_total_deposits(), Ok(600));
}

#[test]
fn gains_never_exceed_what_came_in() {
    let mut pool = setup();
    pool.deposit(&at(0), alice(), 1000).unwrap();
    pool.absorb_liquidation(&at(0), engine(), 500, 100, xlm()).unwrap();
    pool.absorb_liquidation(&at(0), engine(), 250, 100, xlm()).unwrap();
    assert_eq!(pool.get_collateral_gain(alice()), Ok(200));
    // One who comes in later shares by what each has left by then.
    pool.deposit(&at(0), bob(), 250).unwrap();
    pool.absorb_liquidation(&at(0), engine(), 100, 100, xlm()).unwrap();
    assert_eq!(pool.get_collateral_gain(alice()), Ok(250));
    assert_eq!(pool.get_collateral_gain(bob()), Ok(50));
    assert_eq!(pool.get_compounded_deposit(alice()), Ok(200));
    assert_eq!(pool.get_compounded_deposit(bob()), Ok(200));
    assert_eq!(pool.get_state().unwrap().total_coll_gained, 300);
    assert_eq!(pool.stakes, Stakes { high: 0, low: 2000 });
    // Uneven shares are rounded down.
    pool.absorb_liquidation(&at(0), engine(), 1, 3, xlm()).unwrap();
    assert_eq!(pool.get_collateral_gain(alice()), Ok(251));
    assert_eq!(pool.get_collateral_gain(bob()), Ok(51));
}

#[test]
fn emptying_the_pool_ends_the_epoch() {
    let mut pool = setup();
    pool.deposit(&at(0), alice(), 1000).unwrap();
    pool.absorb_liquidation(&at(0), engine(), 1000, 900, xlm()).unwrap();
    let state = pool.get_state().unwrap();
    assert_eq!(state.epoch, 1);
    assert_eq!(state.p, ONE);
    assert_eq!(state.sum_coll, 0);
    assert_eq!(state.total_deposits, 0);
    assert_eq!(pool.get_compounded_deposit(alice()), Ok(0));
    assert_eq!(
        pool.absorb_liquidation(&at(0), engine(), 0, 0, xlm()),
        Err(Error::Arithmetic)
    );
    assert_eq!(pool.withdraw(&at(0), alice(), 1), Err(Error::NothingToWithdraw));
    // The collateral that the last USDC bought is still there.
    assert_eq!(pool.get_collateral_gain(alice()), Ok(900));
}

#[test]
fn gains_outlive_their_epoch() {
    let mut pool = setup();
    pool.deposit(&at(0), alice(), 600).unwrap();
    pool.deposit(&at(0), bob(), 400).unwrap();
    pool.absorb_liquidation(&at(0), engine(), 500, 100, xlm()).unwrap();
    pool.absorb_liquidation(&at(0), engine(), 500, 50, xlm()).unwrap();
    assert_eq!(pool.get_state().unwrap().epoch, 1);
    // A depositor of the next epoch has no part in what was gained before, nor
    // the others in what is gained after.
    pool.deposit(&at(0), xlm(), 1000).unwrap();
    pool.absorb_liquidation(&at(0), engine(), 100, 70, xlm()).unwrap();
    assert_eq!(pool.get_collateral_gain(xlm()), Ok(70));
    assert_eq!(pool.get_collateral_gain(alice()), Ok(90));
    assert_eq!(pool.claim_gains(&at(0), bob()).unwrap().0, 60);
    assert_eq!(pool.get_collateral_gain(bob()), Ok(0));
    // A deposit claims what the old one gained, and starts anew.
    assert_eq!(pool.deposit(&at(0), alice(), 10).unwrap().len(), 5);
    assert_eq!(pool.get_collateral_gain(alice()), Ok(0));
    assert_eq!(pool.get_compounded_deposit(alice()), Ok(10));
}

#[test]
fn liquidations_are_checked() {
    let mut pool = setup();
    pool.deposit(&at(0), alice(), 1000).unwrap();
    assert_eq!(
        pool.absorb_liquidation(&at(0), alice(), 1, 1, xlm()),
        Err(Error::OnlyEngine)
    );
    assert_eq!(
        pool.absorb_liquidation(&at(0), engine(), 1001, 1, xlm()),
        Err(Error::InsufficientPoolDepth)
    );
    pool.set_paused(admin(), true).unwrap();
    assert_eq!(
        pool.absorb_liquidation(&at(0), engine(), 1, 1, xlm()),
        Err(Error::PoolPaused)
    );
}

#[test]
fn a_pause_locks_nobody_in() {
    let mut pool = setup();
    pool.deposit(&at(0), alice(), 1000).unwrap();
    assert_eq!(pool.set_paused(bob(), true), Err(Error::AdminOnly));
    pool.set_paused(admin(), true).unwrap();
    assert_eq!(pool.deposit(&at(0), alice(), 1), Err(Error::PoolPaused));
    assert_eq!(pool.withdraw(&at(0), alice(), 1000).unwrap().0, 1000);
}

#[test]
fn the_dao_changes_the_registry_and_the_code() {
    let mut pool = setup();
    assert_eq!(pool.set_compliance(alice(), bob()), Err(Error::DaoOnly));
    pool.set_compliance(dao(), bob()).unwrap();
    assert_eq!(
        pool.deposit(&at(0), alice(), 5).unwrap()[1],
        Effect::AssertUserCompliant { registry: bob(), caller: here(), user: alice() }
    );
    let hash = WasmHash { hi: 1, lo: 2 };
    assert_eq!(
        pool.upgrade(alice(), hash),
        Ok(vec![Effect::RequireAuth(dao()), Effect::UpdateWasm(hash)])
    );
    assert_eq!(StabilityPool::new().upgrade(alice(), hash), Err(Error::NotInitialised));
}

#[test]
fn deposits_of_another_epoch_are_lost() {
    let pool = PoolState {
        total_deposits: 5,
        p: 500_000_000_000,
        epoch: 3,
        scale: 0,
        sum_coll: 0,
        total_coll_gained: 0,
        total_liq_count: 0,
        paused: false,
    };
    let snapshot = StabilityPool::_current_snapshot(&pool);
    assert_eq!(
        snapshot,
        Snapshot { p_value: 500_000_000_000, sum_coll: 0, epoch: 3, scale: 0 }
    );
    let dep = Deposit { initial_value: 99, snapshot, deposited_at: 0 };
    assert_eq!(StabilityPool::_compounded_deposit(&dep, &pool), Ok(99));
    let old = Deposit { snapshot: Snapshot { epoch: 2, ..snapshot }, ..dep };
    assert_eq!(StabilityPool::_compounded_deposit(&old, &pool), Ok(0));
    let whole = Deposit { snapshot: Snapshot { p_value: ONE, ..snapshot }, ..dep };
    // Half of it is left, rounded down.
    assert_eq!(StabilityPool::_compounded_deposit(&whole, &pool), Ok(49));
    let early = Deposit { snapshot: Snapshot { sum_coll: -ONE, ..snapshot }, ..dep };
    assert_eq!(StabilityPool::_coll_gain(&early, pool.sum_coll), Ok(198));
    let none = Deposit { initial_value: 0, ..early };
    assert_eq!(StabilityPool::_coll_gain(&none, pool.sum_coll), Ok(0));
}

#[test]
fn large_numbers_stay_exact() {
    let mut pool = setup();
    let most = i128::MAX / ONE;
    pool.deposit(&at(0), alice(), most).unwrap();
    // All the collateral together is more than a product with it could hold.
    pool.absorb_liquidation(&at(0), engine(), most / 2, most, xlm()).unwrap();
    pool.absorb_liquidation(&at(0), engine(), 1, most, xlm()).unwrap();
    let gain = pool.get_collateral_gain(alice()).unwrap();
    assert_eq!(gain, 2 * most);
    // A deposit under a low product has a stake beyond any amount.
    let rest = i128::MAX - pool.get_total_deposits().unwrap();
    pool.deposit(&at(0), bob(), rest).unwrap();
    assert!(pool.stakes.high == 0 && pool.stakes.low > i128::MAX as u128);
    assert_eq!(pool.get_compounded_deposit(bob()), Ok(rest));
    assert_eq!(pool.withdraw(&at(0), bob(), i128::MAX).unwrap().0, rest);
    assert_eq!(pool.stakes, Stakes { high: 0, low: most as u128 });
    assert_eq!(pool.claim_gains(&at(0), alice()).unwrap().0, gain);
}

#[test]
fn stakes_are_counted_in_two_words() {
    // Value over product, rounded up.
    assert_eq!(Stakes::of(1000, ONE), Stakes { high: 0, low: 1000 });
    assert_eq!(Stakes::of(1, 3 * ONE / 10), Stakes { high: 0, low: 4 });
    assert_eq!(Stakes::of(0, ONE), Stakes::none());
    let most = Stakes::of(i128::MAX, 1_000);
    // The largest amount, a thousand million times.
    assert_eq!(most, Stakes { high: 499_999_999, low: u128::MAX - 999_999_999 });
    let twice = most.plus(most).unwrap();
    assert_eq!(twice, Stakes { high: 999_999_999, low: u128::MAX - 1_999_999_999 });
    assert_eq!(twice.minus(most), Ok(most));
    assert_eq!(most.minus(twice), Err(Error::Arithmetic));
    let full = Stakes { high: u128::MAX, low: u128::MAX };
    assert_eq!(full.plus(Stakes { high: 0, low: 1 }), Err(Error::Arithmetic));
    assert_eq!(Stakes { high: 0, low: 4 }.each(10), 2);
    assert_eq!(Stakes::none().each(10), 0);
    assert_eq!(most.each(i128::MAX), 0);
}

#[test]
fn ratios_of_large_products() {
    assert_eq!(arith::ratio(i128::MAX, i128::MAX, i128::MAX), Ok(i128::MAX));
    assert_eq!(arith::ratio(i128::MAX, 6, 4), Err(Error::Arithmetic));
    assert_eq!(arith::ratio(i128::MAX, 4, 6), Ok(i128::MAX / 3 * 2));
    assert_eq!(arith::ratio(i128::MIN, i128::MAX, i128::MAX), Ok(i128::MIN));
    assert_eq!(arith::ratio(i128::MIN, i128::MIN, i128::MIN), Ok(i128::MIN));
    assert_eq!(arith::ratio(i128::MIN, 1, -1), Err(Error::Arithmetic));
    assert_eq!(arith::ratio(-7, 1, 2), Ok(-3));
    assert_eq!(arith::ratio(7, -1, -2), Ok(3));
    assert_eq!(arith::ratio(0, -5, 3), Ok(0));
    assert_eq!(arith::ratio(1, 1, 0), Err(Error::Arithmetic));
    assert_eq!(arith::ratio_up(i128::MAX, i128::MAX, i128::MAX), Ok(i128::MAX));
    assert_eq!(arith::ratio_up(i128::MAX, 3, 2), Err(Error::Arithmetic));
    assert_eq!(arith::ratio_up(7, 1, 2), Ok(4));
    assert_eq!(arith::ratio_up(8, 1, 2), Ok(4));
}
