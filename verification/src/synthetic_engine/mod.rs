//! The vaults in which collateral backs synthetic assets.
pub mod laws;
pub mod model;
pub mod outcomes;

use crate::arith;
use crate::error::Error;
use crate::synthetic_engine::model::EngineState;
use crate::table;
use crate::table::Table;
use crate::types::{Address, Context, Symbol, WasmHash};
use vstd::prelude::*;

verus! {

/// One, in basis points.
pub const PRECISION: i128 = 10_000;

/// One unit of a token or a price, with seven decimals.
pub const WAD: i128 = 10_000_000;

/// The highest penalty on a liquidation, in basis points.
pub const MAX_PENALTY: i128 = 2_000;

/// `stabfee`.
pub const STABFEE: u128 = 0x73746162666565;

/// The rules of one synthetic asset. Ratios are in basis points.
#[derive(Clone, Copy, PartialEq, Eq, Structural, Debug)]
pub struct AssetConfig {
    pub token: Address,
    pub oracle_symbol: Symbol,
    pub coll_oracle_sym: Symbol,
    pub min_coll_ratio: i128,
    pub liq_ratio: i128,
    pub liq_penalty: i128,
    /// The fee for each mint, in basis points. It is taken once.
    pub stab_fee_bps: i128,
    pub debt_ceiling: i128,
    pub enabled: bool,
}

/// What an owner put up against a synthetic asset.
#[derive(Clone, Copy, PartialEq, Eq, Structural, Debug)]
pub struct Vault {
    pub owner: Address,
    pub collateral: i128,
    pub collateral_tok: Address,
    pub synth_asset: Symbol,
    pub debt: i128,
    pub opened_at: u64,
    pub last_update: u64,
}

#[derive(Clone, Copy, PartialEq, Eq, Structural, Debug)]
pub struct OpenEvent {
    pub owner: Address,
    pub synth_asset: Symbol,
    pub collateral_token: Address,
    pub collateral_amount: i128,
}

#[derive(Clone, Copy, PartialEq, Eq, Structural, Debug)]
pub struct DepositEvent {
    pub owner: Address,
    pub synth_asset: Symbol,
    pub amount: i128,
}

#[derive(Clone, Copy, PartialEq, Eq, Structural, Debug)]
pub struct MintEvent {
    pub owner: Address,
    pub synth_asset: Symbol,
    pub amount: i128,
}

#[derive(Clone, Copy, PartialEq, Eq, Structural, Debug)]
pub struct BurnEvent {
    pub owner: Address,
    pub synth_asset: Symbol,
    pub amount: i128,
}

#[derive(Clone, Copy, PartialEq, Eq, Structural, Debug)]
pub struct LiquidationEvent {
    pub owner: Address,
    pub synth_asset: Symbol,
    pub collateral_seized: i128,
}

#[derive(Clone, Copy, PartialEq, Eq, Structural, Debug)]
pub struct WithdrawEvent {
    pub owner: Address,
    pub synth_asset: Symbol,
    pub amount: i128,
}

#[derive(Clone, Copy, PartialEq, Eq, Structural, Debug)]
pub struct MarketCreatedEvent {
    pub symbol: Symbol,
    pub token: Address,
    pub oracle_symbol: Symbol,
    pub coll_oracle_symbol: Symbol,
    pub min_coll_ratio: i128,
    pub liq_ratio: i128,
    pub liq_penalty: i128,
    pub stab_fee_bps: i128,
    pub debt_ceiling: i128,
}

/// What a liquidation does to a vault.
#[derive(Clone, Copy, PartialEq, Eq, Structural, Debug)]
pub struct Settlement {
    /// What the liquidator repays.
    pub repay: i128,
    /// The collateral that the liquidator gets for it.
    pub award: i128,
    /// The collateral that is left.
    pub collateral: i128,
    /// The debt that is left.
    pub debt: i128,
}

/// What a call does outside the contract, in the order in which it does it.
#[derive(Clone, Copy, PartialEq, Eq, Structural, Debug)]
pub enum Effect {
    /// The address must have authorised the call.
    RequireAuth(Address),
    /// The compliance registry must let the user act.
    AssertUserCompliant { registry: Address, caller: Address, user: Address },
    /// The compliance registry must let the asset change hands.
    AssertTransferAllowed {
        registry: Address,
        caller: Address,
        from: Address,
        to: Address,
        asset: Symbol,
        amount: i128,
    },
    /// Tokens change hands.
    Transfer { token: Address, from: Address, to: Address, amount: i128 },
    /// Synthetic tokens are created.
    Mint { token: Address, to: Address, amount: i128 },
    /// Synthetic tokens are destroyed.
    Burn { token: Address, from: Address, amount: i128 },
    /// The earnings distributor collects a fee from `sender`.
    ReceiveRevenue {
        distributor: Address,
        sender: Address,
        token: Address,
        amount: i128,
        source: Symbol,
        partner_id: u32,
    },
    /// The contract's code is replaced.
    UpdateWasm(WasmHash),
    MarketCreated(MarketCreatedEvent),
    Open(OpenEvent),
    Deposit(DepositEvent),
    Minted(MintEvent),
    Burnt(BurnEvent),
    Withdraw(WithdrawEvent),
    Liquidated(LiquidationEvent),
}

/// The markets and the vaults.
pub struct SyntheticEngine {
    pub admin: Option<Address>,
    pub oracle: Option<Address>,
    pub compliance: Option<Address>,
    pub earnings: Option<Address>,
    pub dao: Option<Address>,
    pub stab_pool: Option<Address>,
    pub paused: bool,
    pub configs: Table<Symbol, AssetConfig>,
    /// The vaults, by owner and synthetic asset.
    pub vaults: Table<(Address, Symbol), Vault>,
    /// The debt of all vaults of an asset.
    pub debt_totals: Table<Symbol, i128>,
    pub collateral_allowed: Table<Address, bool>,
    /// The assets for which an owner ever opened a vault.
    pub vaults_by_owner: Table<Address, Vec<Symbol>>,
}

impl View for SyntheticEngine {
    type V = EngineState;

    open spec fn view(&self) -> EngineState {
        EngineState {
            admin: self.admin,
            oracle: self.oracle,
            compliance: self.compliance,
            earnings: self.earnings,
            dao: self.dao,
            stab_pool: self.stab_pool,
            paused: self.paused,
            configs: self.configs@,
            vaults: self.vaults@,
            debt_totals: self.debt_totals@,
            collateral_allowed: self.collateral_allowed@,
            vaults_by_owner: table::views(self.vaults_by_owner@),
        }
    }
}

/// The smaller of two amounts.
fn smaller(a: i128, b: i128) -> (r: i128)
    ensures
        r == arith::min(a as int, b as int),
{
    if a <= b {
        a
    } else {
        b
    }
}

/// The collateral of a vault over its debt, in basis points.
fn ratio(vault: &Vault, coll_price: i128, synth_price: i128) -> (r: Result<i128, Error>)
    ensures
        r == model::ratio(*vault, coll_price, synth_price),
{
    let coll_usd: i128 = arith::times_over(vault.collateral, coll_price, WAD)?;
    let scaled: i128 = arith::times(coll_usd, PRECISION)?;
    let debt_usd: i128 = arith::times_over(vault.debt, synth_price, WAD)?;
    arith::over(scaled, debt_usd)
}

/// The ratio that decides on a liquidation.
fn health(vault: &Vault, coll_price: i128, synth_price: i128) -> (r: Result<i128, Error>)
    ensures
        r == model::health(*vault, coll_price, synth_price),
{
    let coll_usd: i128 = arith::times_over(vault.collateral, coll_price, WAD)?;
    let debt_usd: i128 = arith::times_over(vault.debt, synth_price, WAD)?;
    if debt_usd > 0 {
        arith::times_over(coll_usd, PRECISION, debt_usd)
    } else {
        Ok(i128::MAX)
    }
}

/// How a liquidation settles.
fn settle(
    vault: &Vault,
    cfg: &AssetConfig,
    repay_amt: i128,
    coll_price: i128,
    synth_price: i128,
) -> (r: Result<Settlement, Error>)
    ensures
        r == model::settled(*vault, *cfg, repay_amt, coll_price, synth_price),
{
    let cr: i128 = health(vault, coll_price, synth_price)?;
    if cr >= cfg.liq_ratio {
        return Err(Error::NotUndercollateralised);
    }
    let repay: i128 = smaller(repay_amt, vault.debt);
    let repay_usd: i128 = arith::times_over(repay, synth_price, WAD)?;
    let penalty_usd: i128 = arith::times_over(repay_usd, cfg.liq_penalty, PRECISION)?;
    let due_usd: i128 = arith::plus(repay_usd, penalty_usd)?;
    let due: i128 = arith::times_over(due_usd, WAD, coll_price)?;
    let award: i128 = smaller(due, vault.collateral);
    let collateral: i128 = arith::minus(vault.collateral, award)?;
    let debt: i128 = arith::minus(vault.debt, repay)?;
    Ok(Settlement { repay, award, collateral, debt })
}

/// The fee for minting an amount.
fn mint_fee(amount: i128, stab_fee_bps: i128) -> (r: i128)
    ensures
        r == model::mint_fee(amount as int, stab_fee_bps as int),
{
    let scaled: i128 = arith::saturating_times(amount, stab_fee_bps);
    proof {
        arith::lemma_quot_range(scaled as int, PRECISION as int);
    }
    match arith::over(scaled, PRECISION) {
        Ok(fee) => fee,
        Err(_) => 0,
    }
}

impl SyntheticEngine {
    /// The contract before it is set up.
    pub fn new() -> (r: SyntheticEngine)
        ensures
            r@ == EngineState::blank(),
    {
        let r = SyntheticEngine {
            admin: None,
            oracle: None,
            compliance: None,
            earnings: None,
            dao: None,
            stab_pool: None,
            paused: false,
            configs: Table::new(),
            vaults: Table::new(),
            debt_totals: Table::new(),
            collateral_allowed: Table::new(),
            vaults_by_owner: Table::new(),
        };
        assert(r@ =~= EngineState::blank());
        r
    }

    /// Sets up the engine. Once.
    pub fn initialize(
        &mut self,
        admin: Address,
        oracle: Address,
        compliance: Address,
        earnings: Address,
        dao: Address,
    ) -> (r: Result<Vec<Effect>, Error>)
        ensures
            crate::error::agrees(
                r,
                old(self)@,
                final(self)@,
                old(self)@.initialize(admin, oracle, compliance, earnings, dao),
            ),
    {
        if self.admin.is_some() {
            return Err(Error::AlreadyInitialised);
        }
        self.admin = Some(admin);
        self.oracle = Some(oracle);
        self.compliance = Some(compliance);
        self.earnings = Some(earnings);
        self.dao = Some(dao);
        self.paused = false;
        Ok(vec![Effect::RequireAuth(admin)])
    }

    /// Opens a market, or replaces its rules.
    pub fn register_asset(
        &mut self,
        dao: Address,
        symbol: Symbol,
        token: Address,
        oracle_sym: Symbol,
        coll_oracle: Symbol,
        min_cr: i128,
        liq_cr: i128,
        liq_penalty: i128,
        stab_fee_bps: i128,
        debt_ceiling: i128,
    ) -> (r: Result<Vec<Effect>, Error>)
        ensures
            crate::error::agrees(
                r,
                old(self)@,
                final(self)@,
                old(self)@.register_asset(
                    dao,
                    symbol,
                    token,
                    oracle_sym,
                    coll_oracle,
                    min_cr,
                    liq_cr,
                    liq_penalty,
                    stab_fee_bps,
                    debt_ceiling,
                ),
            ),
    {
        self._require_dao(dao)?;
        if min_cr <= liq_cr {
            return Err(Error::MinRatioTooLow);
        }
        if liq_penalty > MAX_PENALTY {
            return Err(Error::PenaltyTooHigh);
        }
        self.configs.insert(
            symbol,
            AssetConfig {
                token,
                oracle_symbol: oracle_sym,
                coll_oracle_sym: coll_oracle,
                min_coll_ratio: min_cr,
                liq_ratio: liq_cr,
                liq_penalty,
                stab_fee_bps,
                debt_ceiling,
                enabled: true,
            },
        );
        Ok(
            vec![
                Effect::RequireAuth(dao),
                Effect::MarketCreated(
                    MarketCreatedEvent {
                        symbol,
                        token,
                        oracle_symbol: oracle_sym,
                        coll_oracle_symbol: coll_oracle,
                        min_coll_ratio: min_cr,
                        liq_ratio: liq_cr,
                        liq_penalty,
                        stab_fee_bps,
                        debt_ceiling,
                    },
                ),
            ],
        )
    }

    /// Lets a token serve as collateral, or no longer.
    pub fn set_collateral_allowed(&mut self, dao: Address, token: Address, allowed: bool) -> (r:
        Result<Vec<Effect>, Error>)
        ensures
            crate::error::agrees(
                r,
                old(self)@,
                final(self)@,
                old(self)@.set_collateral_allowed(dao, token, allowed),
            ),
    {
        self._require_dao(dao)?;
        if allowed {
            self.collateral_allowed.insert(token, true);
        } else {
            self.collateral_allowed.remove(&token);
        }
        Ok(vec![Effect::RequireAuth(dao)])
    }

    /// Switches a market on or off. One that is off takes no new vaults and
    /// mints nothing; repaying, withdrawing and liquidating go on.
    pub fn set_asset_enabled(&mut self, dao: Address, symbol: Symbol, enabled: bool) -> (r: Result<
        Vec<Effect>,
        Error,
    >)
        ensures
            crate::error::agrees(
                r,
                old(self)@,
                final(self)@,
                old(self)@.set_asset_enabled(dao, symbol, enabled),
            ),
    {
        self._require_dao(dao)?;
        let cfg: AssetConfig = self._get_cfg(symbol)?;
        self.configs.insert(symbol, AssetConfig { enabled, ..cfg });
        Ok(vec![Effect::RequireAuth(dao)])
    }

    /// Sets the highest debt of a market.
    pub fn set_debt_ceiling(&mut self, dao: Address, symbol: Symbol, ceiling: i128) -> (r: Result<
        Vec<Effect>,
        Error,
    >)
        ensures
            crate::error::agrees(
                r,
                old(self)@,
                final(self)@,
                old(self)@.set_debt_ceiling(dao, symbol, ceiling),
            ),
    {
        self._require_dao(dao)?;
        let cfg: AssetConfig = self._get_cfg(symbol)?;
        self.configs.insert(symbol, AssetConfig { debt_ceiling: ceiling, ..cfg });
        Ok(vec![Effect::RequireAuth(dao)])
    }

    /// Sets the pool that gets what closed vaults still held.
    pub fn set_stability_pool(&mut self, admin: Address, pool: Address) -> (r: Result<
        Vec<Effect>,
        Error,
    >)
        ensures
            crate::error::agrees(
                r,
                old(self)@,
                final(self)@,
                old(self)@.set_stability_pool(admin, pool),
            ),
    {
        self._require_admin(admin)?;
        self.stab_pool = Some(pool);
        Ok(vec![Effect::RequireAuth(admin)])
    }

    /// Pauses the engine, or lets it go on.
    pub fn set_paused(&mut self, admin: Address, paused: bool) -> (r: Result<Vec<Effect>, Error>)
        ensures
            crate::error::agrees(r, old(self)@, final(self)@, old(self)@.set_paused(admin, paused)),
    {
        self._require_admin(admin)?;
        self.paused = paused;
        Ok(vec![Effect::RequireAuth(admin)])
    }

    /// Replaces the contract's code; its state stays.
    pub fn upgrade(&mut self, _dao: Address, new_wasm_hash: WasmHash) -> (r: Result<
        Vec<Effect>,
        Error,
    >)
        ensures
            crate::error::agrees(r, old(self)@, final(self)@, old(self)@.upgrade(new_wasm_hash)),
    {
        match self.dao {
            None => Err(Error::NotInitialised),
            Some(dao) => Ok(
                vec![Effect::RequireAuth(dao), Effect::UpdateWasm(new_wasm_hash)],
            ),
        }
    }

    /// Opens a vault with some collateral and no debt.
    pub fn open_vault(
        &mut self,
        env: &Context,
        owner: Address,
        synth: Symbol,
        coll_token: Address,
        coll_amount: i128,
    ) -> (r: Result<Vec<Effect>, Error>)
        ensures
            crate::error::agrees(
                r,
                old(self)@,
                final(self)@,
                old(self)@.open_vault(*env, owner, synth, coll_token, coll_amount),
            ),
    {
        broadcast use table::lemma_views_insert;

        self._assert_not_paused()?;
        let gate: Effect = self._require_kyc(env, owner)?;
        let check: Effect = self._require_compliant(env, owner, synth, 0)?;
        let allowed: bool = match self.collateral_allowed.get(&coll_token) {
            Some(a) => *a,
            None => false,
        };
        if !allowed {
            return Err(Error::CollateralNotWhitelisted);
        }
        match self.configs.get(&synth) {
            None => return Err(Error::AssetNotRegistered),
            Some(cfg) => if !cfg.enabled {
                return Err(Error::AssetDisabled);
            },
        }
        if self.vaults.contains(&(owner, synth)) {
            return Err(Error::VaultAlreadyOpen);
        }
        if coll_amount <= 0 {
            return Err(Error::CollateralNotPositive);
        }
        let mut owned: Vec<Symbol> = self.get_vaults_by_owner(owner);
        owned.push(synth);
        self.vaults.insert(
            (owner, synth),
            Vault {
                owner,
                collateral: coll_amount,
                collateral_tok: coll_token,
                synth_asset: synth,
                debt: 0,
                opened_at: env.timestamp,
                last_update: env.timestamp,
            },
        );
        self.vaults_by_owner.insert(owner, owned);
        Ok(
            vec![
                Effect::RequireAuth(owner),
                gate,
                check,
                Effect::Transfer {
                    token: coll_token,
                    from: owner,
                    to: env.contract,
                    amount: coll_amount,
                },
                Effect::Open(
                    OpenEvent {
                        owner,
                        synth_asset: synth,
                        collateral_token: coll_token,
                        collateral_amount: coll_amount,
                    },
                ),
            ],
        )
    }

    /// Adds collateral to a vault.
    pub fn deposit_collateral(
        &mut self,
        env: &Context,
        owner: Address,
        synth: Symbol,
        amount: i128,
    ) -> (r: Result<Vec<Effect>, Error>)
        ensures
            crate::error::agrees(
                r,
                old(self)@,
                final(self)@,
                old(self)@.deposit_collateral(*env, owner, synth, amount),
            ),
    {
        self._assert_not_paused()?;
        let gate: Effect = self._require_kyc(env, owner)?;
        if amount <= 0 {
            return Err(Error::AmountNotPositive);
        }
        let vault: Vault = self._get_vault(owner, synth)?;
        let collateral: i128 = arith::plus(vault.collateral, amount)?;
        self.vaults.insert(
            (owner, synth),
            Vault { collateral, last_update: env.timestamp, ..vault },
        );
        Ok(
            vec![
                Effect::RequireAuth(owner),
                gate,
                Effect::Transfer {
                    token: vault.collateral_tok,
                    from: owner,
                    to: env.contract,
                    amount,
                },
                Effect::Deposit(DepositEvent { owner, synth_asset: synth, amount }),
            ],
        )
    }

    /// Mints against a vault's collateral. The prices are the oracle's.
    pub fn mint_synth(
        &mut self,
        env: &Context,
        owner: Address,
        synth: Symbol,
        amount: i128,
        coll_price: i128,
        synth_price: i128,
    ) -> (r: Result<Vec<Effect>, Error>)
        ensures
            crate::error::agrees(
                r,
                old(self)@,
                final(self)@,
                old(self)@.mint_synth(*env, owner, synth, amount, coll_price, synth_price),
            ),
    {
        self._assert_not_paused()?;
        if amount <= 0 {
            return Err(Error::AmountNotPositive);
        }
        let gate: Effect = self._require_kyc(env, owner)?;
        let check: Effect = self._require_compliant(env, owner, synth, amount)?;
        let vault: Vault = self._get_vault(owner, synth)?;
        let cfg: AssetConfig = self._get_cfg(synth)?;
        if !cfg.enabled {
            return Err(Error::AssetDisabled);
        }
        let total: i128 = self.get_debt_total(synth);
        if arith::saturating_plus(total, amount) > cfg.debt_ceiling {
            return Err(Error::DebtCeilingExceeded);
        }
        let debt: i128 = arith::saturating_plus(vault.debt, amount);
        self._assert_cr(vault.collateral, debt, &cfg, coll_price, synth_price)?;
        let new_total: i128 = arith::plus(total, amount)?;
        self.vaults.insert((owner, synth), Vault { debt, last_update: env.timestamp, ..vault });
        self.debt_totals.insert(synth, new_total);
        let mut effects: Vec<Effect> = vec![
            Effect::RequireAuth(owner),
            gate,
            check,
            Effect::Mint { token: cfg.token, to: owner, amount },
        ];
        let fee: i128 = mint_fee(amount, cfg.stab_fee_bps);
        if fee > 0 {
            effects.push(Effect::Burn { token: cfg.token, from: owner, amount: fee });
            if let Some(distributor) = self.earnings {
                effects.push(
                    Effect::ReceiveRevenue {
                        distributor,
                        sender: env.contract,
                        token: cfg.token,
                        amount: fee,
                        source: Symbol { head: STABFEE, tail: 0 },
                        partner_id: 0,
                    },
                );
            }
        }
        effects.push(Effect::Minted(MintEvent { owner, synth_asset: synth, amount }));
        Ok(effects)
    }

    /// Repays debt: what is offered, or all there is.
    pub fn burn_synth(&mut self, env: &Context, owner: Address, synth: Symbol, amount: i128) -> (r:
        Result<Vec<Effect>, Error>)
        ensures
            crate::error::agrees(
                r,
                old(self)@,
                final(self)@,
                old(self)@.burn_synth(*env, owner, synth, amount),
            ),
    {
        if amount <= 0 {
            return Err(Error::AmountNotPositive);
        }
        let gate: Effect = self._require_kyc(env, owner)?;
        let vault: Vault = self._get_vault(owner, synth)?;
        let cfg: AssetConfig = self._get_cfg(synth)?;
        let repay: i128 = smaller(amount, vault.debt);
        let debt: i128 = arith::minus(vault.debt, repay)?;
        let total: i128 = self.reduced_total(synth, repay)?;
        self.vaults.insert((owner, synth), Vault { debt, last_update: env.timestamp, ..vault });
        self.debt_totals.insert(synth, total);
        Ok(
            vec![
                Effect::RequireAuth(owner),
                gate,
                Effect::Burn { token: cfg.token, from: owner, amount: repay },
                Effect::Burnt(BurnEvent { owner, synth_asset: synth, amount: repay }),
            ],
        )
    }

    /// Takes collateral out of a vault. The prices are the oracle's; they
    /// count only where the vault has debt.
    pub fn withdraw_collateral(
        &mut self,
        env: &Context,
        owner: Address,
        synth: Symbol,
        amount: i128,
        coll_price: i128,
        synth_price: i128,
    ) -> (r: Result<Vec<Effect>, Error>)
        ensures
            crate::error::agrees(
                r,
                old(self)@,
                final(self)@,
                old(self)@.withdraw_collateral(
                    *env,
                    owner,
                    synth,
                    amount,
                    coll_price,
                    synth_price,
                ),
            ),
    {
        self._assert_not_paused()?;
        if amount <= 0 {
            return Err(Error::AmountNotPositive);
        }
        let gate: Effect = self._require_kyc(env, owner)?;
        let vault: Vault = self._get_vault(owner, synth)?;
        let cfg: AssetConfig = self._get_cfg(synth)?;
        if vault.collateral < amount {
            return Err(Error::InsufficientCollateral);
        }
        let collateral: i128 = vault.collateral - amount;
        if vault.debt > 0 {
            self._assert_cr(collateral, vault.debt, &cfg, coll_price, synth_price)?;
        }
        self.vaults.insert(
            (owner, synth),
            Vault { collateral, last_update: env.timestamp, ..vault },
        );
        Ok(
            vec![
                Effect::RequireAuth(owner),
                gate,
                Effect::Transfer {
                    token: vault.collateral_tok,
                    from: env.contract,
                    to: owner,
                    amount,
                },
                Effect::Withdraw(WithdrawEvent { owner, synth_asset: synth, amount }),
            ],
        )
    }

    /// Repays somebody's debt for a part of their collateral, where it no
    /// longer carries the debt. The prices are the oracle's.
    pub fn liquidate(
        &mut self,
        env: &Context,
        liquidator: Address,
        owner: Address,
        synth: Symbol,
        repay_amt: i128,
        coll_price: i128,
        synth_price: i128,
    ) -> (r: Result<Vec<Effect>, Error>)
        ensures
            crate::error::agrees(
                r,
                old(self)@,
                final(self)@,
                old(self)@.liquidate(
                    *env,
                    liquidator,
                    owner,
                    synth,
                    repay_amt,
                    coll_price,
                    synth_price,
                ),
            ),
    {
        self._assert_not_paused()?;
        if repay_amt <= 0 {
            return Err(Error::RepayNotPositive);
        }
        let gate: Effect = self._require_kyc(env, liquidator)?;
        let vault: Vault = self._get_vault(owner, synth)?;
        let cfg: AssetConfig = self._get_cfg(synth)?;
        if self.oracle.is_none() {
            return Err(Error::NotInitialised);
        }
        let done: Settlement = settle(&vault, &cfg, repay_amt, coll_price, synth_price)?;
        let total: i128 = self.reduced_total(synth, done.repay)?;
        let mut effects: Vec<Effect> = vec![
            Effect::RequireAuth(liquidator),
            gate,
            Effect::Burn { token: cfg.token, from: liquidator, amount: done.repay },
            Effect::Transfer {
                token: vault.collateral_tok,
                from: env.contract,
                to: liquidator,
                amount: done.award,
            },
        ];
        if done.debt == 0 && done.collateral > 0 {
            if let Some(pool) = self.stab_pool {
                effects.push(
                    Effect::Transfer {
                        token: vault.collateral_tok,
                        from: env.contract,
                        to: pool,
                        amount: done.collateral,
                    },
                );
            }
        }
        if done.debt == 0 && done.collateral >= 0 {
            self.vaults.remove(&(owner, synth));
        } else {
            self.vaults.insert(
                (owner, synth),
                Vault {
                    collateral: done.collateral,
                    debt: done.debt,
                    last_update: env.timestamp,
                    ..vault
                },
            );
        }
        self.debt_totals.insert(synth, total);
        effects.push(
            Effect::Liquidated(
                LiquidationEvent { owner, synth_asset: synth, collateral_seized: done.award },
            ),
        );
        Ok(effects)
    }

    /// A vault.
    pub fn get_vault(&self, owner: Address, synth: Symbol) -> (r: Option<Vault>)
        ensures
            r == if self@.vaults.contains_key((owner, synth)) {
                Some(self@.vaults[(owner, synth)])
            } else {
                None
            },
    {
        match self.vaults.get(&(owner, synth)) {
            Some(v) => Some(*v),
            None => None,
        }
    }

    /// A vault's collateral over its debt, in basis points. The prices are
    /// the oracle's; they count only where the vault has debt.
    pub fn get_cr_bps(
        &self,
        owner: Address,
        synth: Symbol,
        coll_price: i128,
        synth_price: i128,
    ) -> (r: Result<i128, Error>)
        ensures
            r == self@.get_cr_bps(owner, synth, coll_price, synth_price),
    {
        let vault: Vault = self._get_vault(owner, synth)?;
        if vault.debt == 0 {
            return Ok(i128::MAX);
        }
        let _cfg: AssetConfig = self._get_cfg(synth)?;
        if self.oracle.is_none() {
            return Err(Error::NotInitialised);
        }
        ratio(&vault, coll_price, synth_price)
    }

    /// Whether a vault's collateral no longer carries its debt. The prices
    /// are the oracle's; they count only where the vault has debt.
    pub fn is_liquidatable(
        &self,
        owner: Address,
        synth: Symbol,
        coll_price: i128,
        synth_price: i128,
    ) -> (r: Result<bool, Error>)
        ensures
            r == self@.is_liquidatable(owner, synth, coll_price, synth_price),
    {
        let vault: Vault = match self.vaults.get(&(owner, synth)) {
            Some(v) => *v,
            None => return Ok(false),
        };
        if vault.debt == 0 {
            return Ok(false);
        }
        let cfg: AssetConfig = self._get_cfg(synth)?;
        if self.oracle.is_none() {
            return Err(Error::NotInitialised);
        }
        let cr: i128 = ratio(&vault, coll_price, synth_price)?;
        Ok(cr < cfg.liq_ratio)
    }

    /// The debt of all vaults of an asset.
    pub fn get_debt_total(&self, synth: Symbol) -> (r: i128)
        ensures
            r == self@.debt_total(synth),
    {
        match self.debt_totals.get(&synth) {
            Some(d) => *d,
            None => 0,
        }
    }

    /// The rules of an asset.
    pub fn get_asset_config(&self, synth: Symbol) -> (r: Option<AssetConfig>)
        ensures
            r == if self@.configs.contains_key(synth) {
                Some(self@.configs[synth])
            } else {
                None
            },
    {
        match self.configs.get(&synth) {
            Some(c) => Some(*c),
            None => None,
        }
    }

    /// The assets for which an owner ever opened a vault.
    pub fn get_vaults_by_owner(&self, owner: Address) -> (r: Vec<Symbol>)
        ensures
            r@ == self@.owned(owner),
    {
        match self.vaults_by_owner.get(&owner) {
            Some(owned) => table::copied(owned),
            None => Vec::new(),
        }
    }

    /// Whether the engine is paused.
    pub fn is_paused(&self) -> (r: bool)
        ensures
            r == self@.paused,
    {
        self.paused
    }

    /// The oracle, and what to ask it for: the price of the collateral and
    /// that of the asset. Nothing where there is no oracle or no such market.
    pub fn prices_of(&self, synth: Symbol) -> (r: Option<(Address, Symbol, Symbol)>)
        ensures
            r == match self@.oracle {
                Some(oracle) => if self@.configs.contains_key(synth) {
                    Some(
                        (
                            oracle,
                            self@.configs[synth].coll_oracle_sym,
                            self@.configs[synth].oracle_symbol,
                        ),
                    )
                } else {
                    None
                },
                None => None,
            },
    {
        match self.oracle {
            None => None,
            Some(oracle) => match self.configs.get(&synth) {
                Some(cfg) => Some((oracle, cfg.coll_oracle_sym, cfg.oracle_symbol)),
                None => None,
            },
        }
    }

    /// The debt of an asset after a repayment.
    fn reduced_total(&self, synth: Symbol, repay: i128) -> (r: Result<i128, Error>)
        ensures
            r == if arith::fits(self@.debt_total(synth) - repay) {
                Ok::<i128, Error>(arith::max(self@.debt_total(synth) - repay, 0) as i128)
            } else {
                Err(Error::Arithmetic)
            },
    {
        let total: i128 = arith::minus(self.get_debt_total(synth), repay)?;
        Ok(
            if total >= 0 {
                total
            } else {
                0
            },
        )
    }

    /// Checks that a collateral carries a debt. The products are compared,
    /// so that nothing is lost by rounding.
    fn _assert_cr(
        &self,
        collateral: i128,
        debt: i128,
        cfg: &AssetConfig,
        coll_price: i128,
        synth_price: i128,
    ) -> (r: Result<(), Error>)
        ensures
            r == match self@.cover_error(
                collateral as int,
                debt as int,
                *cfg,
                coll_price,
                synth_price,
            ) {
                None => Ok::<(), Error>(()),
                Some(e) => Err(e),
            },
    {
        if self.oracle.is_none() {
            return Err(Error::NotInitialised);
        }
        let left: i128 = arith::saturating_times(
            arith::saturating_times(collateral, coll_price),
            PRECISION,
        );
        let right: i128 = arith::saturating_times(
            arith::saturating_times(debt, synth_price),
            cfg.min_coll_ratio,
        );
        if left >= right {
            Ok(())
        } else {
            Err(Error::CollateralRatioTooLow)
        }
    }

    /// The check that a user may get an amount of an asset.
    fn _require_compliant(&self, env: &Context, user: Address, synth: Symbol, amount: i128) -> (r:
        Result<Effect, Error>)
        ensures
            r == match self@.compliance {
                None => Err::<Effect, Error>(Error::NotInitialised),
                Some(_) => Ok(self@.transfer_check(*env, user, synth, amount)),
            },
    {
        match self.compliance {
            None => Err(Error::NotInitialised),
            Some(registry) => Ok(
                Effect::AssertTransferAllowed {
                    registry,
                    caller: env.contract,
                    from: user,
                    to: user,
                    asset: synth,
                    amount,
                },
            ),
        }
    }

    /// The check that a user may act.
    fn _require_kyc(&self, env: &Context, user: Address) -> (r: Result<Effect, Error>)
        ensures
            r == match self@.compliance {
                None => Err::<Effect, Error>(Error::NotInitialised),
                Some(registry) => Ok(
                    Effect::AssertUserCompliant { registry, caller: env.contract, user },
                ),
            },
    {
        match self.compliance {
            None => Err(Error::NotInitialised),
            Some(registry) => Ok(
                Effect::AssertUserCompliant { registry, caller: env.contract, user },
            ),
        }
    }

    fn _get_vault(&self, owner: Address, synth: Symbol) -> (r: Result<Vault, Error>)
        ensures
            r == if self@.vaults.contains_key((owner, synth)) {
                Ok::<Vault, Error>(self@.vaults[(owner, synth)])
            } else {
                Err(Error::VaultNotFound)
            },
    {
        match self.vaults.get(&(owner, synth)) {
            Some(v) => Ok(*v),
            None => Err(Error::VaultNotFound),
        }
    }

    fn _get_cfg(&self, synth: Symbol) -> (r: Result<AssetConfig, Error>)
        ensures
            r == if self@.configs.contains_key(synth) {
                Ok::<AssetConfig, Error>(self@.configs[synth])
            } else {
                Err(Error::AssetNotConfigured)
            },
    {
        match self.configs.get(&synth) {
            Some(c) => Ok(*c),
            None => Err(Error::AssetNotConfigured),
        }
    }

    fn _assert_not_paused(&self) -> (r: Result<(), Error>)
        ensures
            r == if self@.paused {
                Err::<(), Error>(Error::ProtocolPaused)
            } else {
                Ok(())
            },
    {
        if self.paused {
            Err(Error::ProtocolPaused)
        } else {
            Ok(())
        }
    }

    fn _require_admin(&self, caller: Address) -> (r: Result<(), Error>)
        ensures
            r == match self@.admin_error(caller) {
                None => Ok::<(), Error>(()),
                Some(e) => Err(e),
            },
    {
        match self.admin {
            None => Err(Error::NotInitialised),
            Some(admin) => if caller == admin {
                Ok(())
            } else {
                Err(Error::AdminOnly)
            },
        }
    }

    fn _require_dao(&self, caller: Address) -> (r: Result<(), Error>)
        ensures
            r == match self@.dao_error(caller) {
                None => Ok::<(), Error>(()),
                Some(e) => Err(e),
            },
    {
        match self.dao {
            None => Err(Error::NotInitialised),
            Some(dao) => if caller == dao {
                Ok(())
            } else {
                Err(Error::DaoOnly)
            },
        }
    }
}

} // verus!
