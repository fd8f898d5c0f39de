use uruk_protocol::error::Error;
use uruk_protocol::liquidity_pool::{
    AddLiquidityEvent, ClaimFeesEvent, Effect, LiquidityPool, LpPosition, RemoveLiquidityEvent,
    SwapEvent,
};
use uruk_protocol::types::{Address, Context, Symbol, WasmHash};

fn addr(n: u128) -> Address {
    Address { contract: false, hi: 0, lo: n }
}

fn here() -> Address {
    addr(100)
}

fn at(timestamp: u64) -> Context {
    Context { contract: here(), timestamp, sequence: 1 }
}

fn admin() -> Address {
    addr(1)
}

fn dao() -> Address {
    addr(2)
}

fn earnings() -> Address {
    addr(3)
}

fn registry() -> Address {
    addr(4)
}

fn alice() -> Address {
    addr(5)
}

fn bob() -> Address {
    addr(6)
}

fn token_a() -> Address {
    addr(7)
}

fn token_b() -> Address {
    addr(8)
}

fn id() -> Symbol {
    Symbol::new(b"XLM_USDC").unwrap()
}

fn empty() -> LiquidityPool {
    let mut lp = LiquidityPool::new();
    lp.initialize(admin(), dao(), earnings(), registry()).unwrap();
    lp.create_pool(admin(), id(), token_a(), token_b(), 30).unwrap();
    lp
}

/// A pool of one million against four, all of it Alice's.
fn filled() -> LiquidityPool {
    let mut lp = empty();
    lp.add_liquidity(&at(5), alice(), id(), 1_000_000, 4_000_000, 0).unwrap();
    lp
}

fn check(user: Address) -> Effect {
    Effect::AssertUserCompliant { registry: registry(), caller: here(), user }
}

fn moved(token: Address, from: Address, to: Address, amount: i128) -> Effect {
    Effect::Transfer { token, from, to, amount }
}

#[test]
fn pools_start_once() {
    let mut lp = LiquidityPool::new();
    assert_eq!(
        lp.create_pool(admin(), id(), token_a(), token_b(), 30),
        Err(Error::NotInitialised)
    );
    assert_eq!(
        lp.initialize(admin(), dao(), earnings(), registry()),
        Ok(vec![Effect::RequireAuth(admin())])
    );
    assert_eq!(lp.protocol_fee, 500);
    assert_eq!(
        lp.initialize(admin(), dao(), earnings(), registry()),
        Err(Error::AlreadyInitialised)
    );
}

#[test]
fn pools_are_created_by_admin_or_dao() {
    let mut lp = empty();
    let other = Symbol::new(b"OTHER").unwrap();
    assert_eq!(
        lp.create_pool(alice(), other, token_a(), token_b(), 30),
        Err(Error::AdminOrDaoOnly)
    );
    assert_eq!(
        lp.create_pool(dao(), other, token_a(), token_b(), 31),
        Err(Error::InvalidFeeTier)
    );
    assert_eq!(
        lp.create_pool(dao(), id(), token_a(), token_b(), 5),
        Err(Error::PoolExists)
    );
    assert_eq!(
        lp.create_pool(dao(), other, token_a(), token_b(), 100),
        Ok((other, vec![Effect::RequireAuth(dao())]))
    );
    assert_eq!(lp.pool_count, 2);
    assert_eq!(lp.pool_list.get(&1), Some(&other));
    assert_eq!(lp.get_pool(Symbol::new(b"NONE").unwrap()), Err(Error::PoolNotFound));
}

#[test]
fn square_roots() {
    assert_eq!(LiquidityPool::_sqrt(0), 0);
    assert_eq!(LiquidityPool::_sqrt(1), 1);
    assert_eq!(LiquidityPool::_sqrt(3), 1);
    assert_eq!(LiquidityPool::_sqrt(4), 2);
    assert_eq!(LiquidityPool::_sqrt(99), 9);
    assert_eq!(LiquidityPool::_sqrt(100), 10);
    assert_eq!(LiquidityPool::_sqrt(4_000_000_000_000), 2_000_000);
    assert_eq!(LiquidityPool::_sqrt(i128::MAX), 13_043_817_825_332_782_212);
    // Two is its own root here: the first guess is not improved on.
    assert_eq!(LiquidityPool::_sqrt(2), 2);
}

#[test]
fn the_first_provider_leaves_a_little_behind() {
    let mut lp = empty();
    assert_eq!(
        lp.add_liquidity(&at(5), alice(), id(), 1_000, 1_000, 0),
        Err(Error::InitialLiquidityTooSmall)
    );
    assert_eq!(
        lp.add_liquidity(&at(5), alice(), id(), 1_000_000, 4_000_000, 1_999_001),
        Err(Error::SharesBelowMinimum)
    );
    assert_eq!(
        lp.add_liquidity(&at(5), alice(), id(), 1_000_000, 4_000_000, 1_999_000),
        Ok((
            1_999_000,
            vec![
                Effect::RequireAuth(alice()),
                check(alice()),
                moved(token_a(), alice(), here(), 1_000_000),
                moved(token_b(), alice(), here(), 4_000_000),
                Effect::AddLiquidity(AddLiquidityEvent {
                    provider: alice(),
                    pool_id: id(),
                    amount_a: 1_000_000,
                    amount_b: 4_000_000,
                    shares: 1_999_000,
                }),
            ]
        ))
    );
    let pool = lp.get_pool(id()).unwrap();
    assert_eq!(pool.total_shares, 2_000_000);
    assert_eq!(
        lp.get_lp_position(id(), alice()),
        Some(LpPosition {
            shares: 1_999_000,
            fee_a_debt: 0,
            fee_b_debt: 0,
            pending_a: 0,
            pending_b: 0,
            deposited_at: 5,
        })
    );
    assert_eq!(lp.get_price(id(), true), Ok(40_000_000));
    assert_eq!(lp.get_price(id(), false), Ok(2_500_000));
}

#[test]
fn adding_is_checked() {
    let mut lp = filled();
    assert_eq!(
        lp.add_liquidity(&at(5), alice(), id(), 0, 5, 0),
        Err(Error::AmountsNotPositive)
    );
    assert_eq!(
        lp.add_liquidity(&at(5), alice(), id(), i128::MAX, 5, 0),
        Err(Error::Arithmetic)
    );
    assert_eq!(
        lp.add_liquidity(&at(5), alice(), Symbol::new(b"NONE").unwrap(), 1, 5, 0),
        Err(Error::PoolNotFound)
    );
}

#[test]
fn a_swap_pays_out_and_takes_fees() {
    let mut lp = filled();
    assert_eq!(lp.quote(id(), 10_000, true), Ok(39_486));
    assert_eq!(
        lp.swap_exact_in(&at(6), bob(), id(), true, 10_000, 39_486, 9),
        Ok((
            39_486,
            vec![
                Effect::RequireAuth(bob()),
                check(bob()),
                moved(token_a(), bob(), here(), 10_000),
                moved(token_b(), here(), bob(), 39_486),
                Effect::ReceiveRevenue {
                    distributor: earnings(),
                    sender: here(),
                    token: token_a(),
                    amount: 1,
                    source: Symbol::new(b"swapfee").unwrap(),
                    partner_id: 9,
                },
                Effect::Swap(SwapEvent {
                    trader: bob(),
                    pool_id: id(),
                    amount_in: 10_000,
                    amount_out: 39_486,
                    a_to_b: true,
                    partner_id: 9,
                }),
            ]
        ))
    );
    let pool = lp.get_pool(id()).unwrap();
    assert_eq!(pool.reserve_a, 1_010_000);
    assert_eq!(pool.reserve_b, 3_960_514);
    assert_eq!(pool.cumulative_vol_a, 10_000);
    assert_eq!(pool.fee_a_accum, 14_500_000);
    assert_eq!(lp.get_price(id(), true), Ok(39_213_009));
    assert_eq!(lp.get_price(id(), false), Ok(2_550_174));
    assert_eq!(lp.claimable_fees(id(), alice()), Ok((28, 0)));
    assert_eq!(lp.claimable_fees(id(), bob()), Ok((0, 0)));
    // The product of the reserves does not fall.
    assert!(pool.reserve_a * pool.reserve_b >= 1_000_000 * 4_000_000);
}

#[test]
fn a_swap_the_other_way() {
    let mut lp = filled();
    assert_eq!(lp.quote(id(), 40_000, false), Ok(9_871));
    let (out, effects) = lp.swap_exact_in(&at(6), bob(), id(), false, 40_000, 0, 0).unwrap();
    assert_eq!(out, 9_871);
    assert_eq!(effects[2], moved(token_b(), bob(), here(), 40_000));
    assert_eq!(effects[3], moved(token_a(), here(), bob(), 9_871));
    let pool = lp.get_pool(id()).unwrap();
    assert_eq!(pool.fee_b_accum, 57_000_000);
    assert_eq!(pool.cumulative_vol_b, 40_000);
}

#[test]
fn swaps_are_checked() {
    let mut lp = filled();
    assert_eq!(
        lp.swap_exact_in(&at(6), bob(), id(), true, 0, 0, 0),
        Err(Error::AmountInNotPositive)
    );
    assert_eq!(
        lp.swap_exact_in(&at(6), bob(), id(), true, 10_000, 39_487, 0),
        Err(Error::OutputBelowMinimum)
    );
    assert_eq!(
        lp.swap_exact_in(&at(6), bob(), id(), true, 20_000, 0, 0),
        Err(Error::PriceImpactTooHigh)
    );
    // At most a hundredth of the reserve leaves, not one token more.
    assert_eq!(
        lp.swap_exact_in(&at(6), bob(), id(), true, 10_132, 0, 0),
        Err(Error::PriceImpactTooHigh)
    );
    assert_eq!(lp.swap_exact_in(&at(6), bob(), id(), true, 10_131, 0, 0).unwrap().0, 39_999);
    // An empty pool has nothing to divide by.
    assert_eq!(
        empty().swap_exact_in(&at(6), bob(), id(), true, 10, 0, 0),
        Err(Error::Arithmetic)
    );
    assert_eq!(empty().get_price(id(), true), Err(Error::Arithmetic));
}

#[test]
fn fees_are_claimed_once() {
    let mut lp = filled();
    lp.swap_exact_in(&at(6), bob(), id(), true, 10_000, 0, 0).unwrap();
    assert_eq!(
        lp.claim_fees(&at(7), alice(), id()),
        Ok((
            (28, 0),
            vec![
                Effect::RequireAuth(alice()),
                check(alice()),
                moved(token_a(), here(), alice(), 28),
                Effect::ClaimFees(ClaimFeesEvent {
                    provider: alice(),
                    pool_id: id(),
                    claim_a: 28,
                    claim_b: 0,
                }),
            ]
        ))
    );
    assert_eq!(
        lp.claim_fees(&at(7), alice(), id()),
        Ok(((0, 0), vec![Effect::RequireAuth(alice()), check(alice())]))
    );
    assert_eq!(lp.claim_fees(&at(7), bob(), id()).unwrap().0, (0, 0));
}

#[test]
fn liquidity_comes_out_with_the_fees() {
    let mut lp = filled();
    lp.swap_exact_in(&at(6), bob(), id(), true, 10_000, 0, 0).unwrap();
    let (out, effects) = lp.remove_liquidity(&at(7), alice(), id(), 1_999_000, 0, 0).unwrap();
    assert_eq!(out, (1_009_495, 3_958_533));
    assert_eq!(
        effects,
        vec![
            Effect::RequireAuth(alice()),
            check(alice()),
            moved(token_a(), here(), alice(), 28),
            Effect::ClaimFees(ClaimFeesEvent {
                provider: alice(),
                pool_id: id(),
                claim_a: 28,
                claim_b: 0,
            }),
            moved(token_a(), here(), alice(), 1_009_495),
            moved(token_b(), here(), alice(), 3_958_533),
            Effect::RemoveLiquidity(RemoveLiquidityEvent {
                provider: alice(),
                pool_id: id(),
                out_a: 1_009_495,
                out_b: 3_958_533,
                shares: 1_999_000,
            }),
        ]
    );
    assert_eq!(lp.get_pool(id()).unwrap().total_shares, 1_000);
    assert_eq!(lp.get_lp_position(id(), alice()).unwrap().shares, 0);
}

#[test]
fn removing_is_checked() {
    let mut lp = filled();
    assert_eq!(
        lp.remove_liquidity(&at(7), bob(), id(), 1, 0, 0),
        Err(Error::NoPosition)
    );
    assert_eq!(
        lp.remove_liquidity(&at(7), alice(), id(), 1_999_001, 0, 0),
        Err(Error::InsufficientShares)
    );
    assert_eq!(
        lp.remove_liquidity(&at(7), alice(), id(), 1_000, 501, 0),
        Err(Error::TokenABelowMinimum)
    );
    assert_eq!(
        lp.remove_liquidity(&at(7), alice(), id(), 1_000, 500, 2_001),
        Err(Error::TokenBBelowMinimum)
    );
    assert_eq!(
        lp.remove_liquidity(&at(7), alice(), id(), 1_000, 500, 2_000).unwrap().0,
        (500, 2_000)
    );
}

#[test]
fn a_second_provider_gets_a_fair_share() {
    let mut lp = filled();
    lp.swap_exact_in(&at(6), bob(), id(), true, 10_000, 0, 0).unwrap();
    let (shares, _) = lp.add_liquidity(&at(7), bob(), id(), 101_000, 500_000, 0).unwrap();
    assert_eq!(shares, 200_000);
    // Bob does not share in fees of before.
    assert_eq!(lp.claimable_fees(id(), bob()), Ok((0, 0)));
    let ((a, b), _) = lp.remove_liquidity(&at(8), bob(), id(), shares, 0, 0).unwrap();
    assert!(a <= 101_000 && b <= 500_000);
}

#[test]
fn a_paused_pool_pays_out_only() {
    let mut lp = filled();
    assert_eq!(lp.set_paused(dao(), id(), true), Err(Error::AdminOnly));
    lp.set_paused(admin(), id(), true).unwrap();
    assert_eq!(
        lp.add_liquidity(&at(5), alice(), id(), 5, 5, 0),
        Err(Error::PoolPaused)
    );
    assert_eq!(
        lp.swap_exact_in(&at(6), bob(), id(), true, 10, 0, 0),
        Err(Error::PoolPaused)
    );
    assert!(lp.remove_liquidity(&at(7), alice(), id(), 1_000, 0, 0).is_ok());
    assert!(lp.claim_fees(&at(7), alice(), id()).is_ok());
}

#[test]
fn the_dao_sets_the_protocol_fee() {
    let mut lp = filled();
    assert_eq!(lp.set_protocol_fee(admin(), 5), Err(Error::DaoOnly));
    assert_eq!(lp.set_protocol_fee(dao(), 2_501), Err(Error::ProtocolFeeTooHigh));
    assert_eq!(lp.set_protocol_fee(dao(), -1), Err(Error::ProtocolFeeNegative));
    lp.set_protocol_fee(dao(), 0).unwrap();
    let (_, effects) = lp.swap_exact_in(&at(6), bob(), id(), true, 10_000, 0, 0).unwrap();
    assert_eq!(effects.len(), 5);
    assert_eq!(lp.get_pool(id()).unwrap().fee_a_accum, 15_000_000);
}

#[test]
fn the_dao_changes_registry_and_code_of_the_pools() {
    let mut lp = filled();
    assert_eq!(lp.set_compliance(admin(), bob()), Err(Error::DaoOnly));
    lp.set_compliance(dao(), bob()).unwrap();
    assert_eq!(
        lp.claim_fees(&at(7), alice(), id()).unwrap().1[1],
        Effect::AssertUserCompliant { registry: bob(), caller: here(), user: alice() }
    );
    let hash = WasmHash { hi: 1, lo: 2 };
    assert_eq!(
        lp.upgrade(alice(), hash),
        Ok(vec![Effect::RequireAuth(dao()), Effect::UpdateWasm(hash)])
    );
}
