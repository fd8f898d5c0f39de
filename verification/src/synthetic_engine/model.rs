//! What each call on the engine does to it.
use crate::arith;
use crate::error;
use crate::error::Error;
use crate::sums;
use crate::synthetic_engine::{
    AssetConfig, BurnEvent, DepositEvent, Effect, LiquidationEvent, MarketCreatedEvent, MintEvent,
    OpenEvent, Settlement, Vault, WithdrawEvent, MAX_PENALTY, PRECISION, STABFEE, WAD,
};
use crate::types::{Address, Context, Symbol, WasmHash};
use vstd::prelude::*;

verus! {

/// The state of the contract.
#[verifier::ext_equal]
pub struct EngineState {
    pub admin: Option<Address>,
    pub oracle: Option<Address>,
    pub compliance: Option<Address>,
    pub earnings: Option<Address>,
    pub dao: Option<Address>,
    pub stab_pool: Option<Address>,
    pub paused: bool,
    pub configs: Map<Symbol, AssetConfig>,
    pub vaults: Map<(Address, Symbol), Vault>,
    pub debt_totals: Map<Symbol, i128>,
    pub collateral_allowed: Map<Address, bool>,
    pub vaults_by_owner: Map<Address, Seq<Symbol>>,
}

/// An amount at a price, in dollars.
pub open spec fn usd(amount: int, price: int) -> int {
    arith::quot(amount * price, WAD as int)
}

/// The dollars can be computed.
pub open spec fn usd_defined(amount: int, price: int) -> bool {
    arith::ratio_defined(amount, price, WAD as int)
}

/// The collateral of a vault over its debt, in basis points.
pub open spec fn ratio(vault: Vault, coll_price: i128, synth_price: i128) -> Result<i128, Error> {
    let coll_usd = usd(vault.collateral as int, coll_price as int);
    let debt_usd = usd(vault.debt as int, synth_price as int);
    if usd_defined(vault.collateral as int, coll_price as int) && usd_defined(
        vault.debt as int,
        synth_price as int,
    ) && arith::ratio_defined(coll_usd, PRECISION as int, debt_usd) {
        Ok(arith::quot(coll_usd * PRECISION, debt_usd) as i128)
    } else {
        Err(Error::Arithmetic)
    }
}

/// The ratio that decides on a liquidation; unbounded where the debt is worth
/// nothing.
pub open spec fn health(vault: Vault, coll_price: i128, synth_price: i128) -> Result<i128, Error> {
    if usd_defined(vault.collateral as int, coll_price as int) && usd_defined(
        vault.debt as int,
        synth_price as int,
    ) && usd(vault.debt as int, synth_price as int) <= 0 {
        Ok(i128::MAX)
    } else {
        ratio(vault, coll_price, synth_price)
    }
}

/// The collateral that repaying an amount is worth, with the penalty on top.
pub open spec fn worth(repay: int, penalty: int, coll_price: int, synth_price: int) -> Option<int> {
    let repay_usd = usd(repay, synth_price);
    let penalty_usd = arith::quot(repay_usd * penalty, PRECISION as int);
    let due = repay_usd + penalty_usd;
    if usd_defined(repay, synth_price) && arith::ratio_defined(repay_usd, penalty, PRECISION as int)
        && arith::fits(due) && arith::ratio_defined(due, WAD as int, coll_price) {
        Some(arith::quot(due * WAD, coll_price))
    } else {
        None
    }
}

/// How a liquidation settles.
pub open spec fn settled(
    vault: Vault,
    cfg: AssetConfig,
    repay_amt: i128,
    coll_price: i128,
    synth_price: i128,
) -> Result<Settlement, Error> {
    let repay = arith::min(repay_amt as int, vault.debt as int);
    match health(vault, coll_price, synth_price) {
        Err(e) => Err(e),
        Ok(cr) => if cr >= cfg.liq_ratio {
            Err(Error::NotUndercollateralised)
        } else {
            match worth(repay, cfg.liq_penalty as int, coll_price as int, synth_price as int) {
                None => Err(Error::Arithmetic),
                Some(due) => {
                    let award = arith::min(due, vault.collateral as int);
                    if !arith::fits(vault.collateral - award) || !arith::fits(vault.debt - repay) {
                        Err(Error::Arithmetic)
                    } else {
                        Ok(
                            Settlement {
                                repay: repay as i128,
                                award: award as i128,
                                collateral: (vault.collateral - award) as i128,
                                debt: (vault.debt - repay) as i128,
                            },
                        )
                    }
                },
            }
        },
    }
}

/// The fee for minting an amount.
pub open spec fn mint_fee(amount: int, stab_fee_bps: int) -> int {
    arith::quot(arith::saturate(amount * stab_fee_bps), PRECISION as int)
}

impl EngineState {
    /// The contract before it is set up.
    pub open spec fn blank() -> EngineState {
        EngineState {
            admin: None,
            oracle: None,
            compliance: None,
            earnings: None,
            dao: None,
            stab_pool: None,
            paused: false,
            configs: Map::empty(),
            vaults: Map::empty(),
            debt_totals: Map::empty(),
            collateral_allowed: Map::empty(),
            vaults_by_owner: Map::empty(),
        }
    }

    pub open spec fn admin_error(self, caller: Address) -> Option<Error> {
        match self.admin {
            None => Some(Error::NotInitialised),
            Some(admin) => if caller == admin {
                None
            } else {
                Some(Error::AdminOnly)
            },
        }
    }

    pub open spec fn dao_error(self, caller: Address) -> Option<Error> {
        match self.dao {
            None => Some(Error::NotInitialised),
            Some(dao) => if caller == dao {
                None
            } else {
                Some(Error::DaoOnly)
            },
        }
    }

    pub open spec fn debt_total(self, synth: Symbol) -> i128 {
        if self.debt_totals.contains_key(synth) {
            self.debt_totals[synth]
        } else {
            0
        }
    }

    pub open spec fn is_allowed(self, token: Address) -> bool {
        self.collateral_allowed.contains_key(token) && self.collateral_allowed[token]
    }

    pub open spec fn owned(self, owner: Address) -> Seq<Symbol> {
        if self.vaults_by_owner.contains_key(owner) {
            self.vaults_by_owner[owner]
        } else {
            Seq::empty()
        }
    }

    // ── Settings ──────────────────────────────────────────────────

    pub open spec fn initialize(
        self,
        admin: Address,
        oracle: Address,
        compliance: Address,
        earnings: Address,
        dao: Address,
    ) -> Result<(Self, Seq<Effect>), Error> {
        if self.admin is Some {
            Err(Error::AlreadyInitialised)
        } else {
            Ok(
                (
                    EngineState {
                        admin: Some(admin),
                        oracle: Some(oracle),
                        compliance: Some(compliance),
                        earnings: Some(earnings),
                        dao: Some(dao),
                        paused: false,
                        ..self
                    },
                    seq![Effect::RequireAuth(admin)],
                ),
            )
        }
    }

    pub open spec fn register_asset(
        self,
        dao: Address,
        symbol: Symbol,
        token: Address,
        oracle_sym: Symbol,
        coll_oracle: Symbol,
        min_cr: i128,
        liq_cr: i128,
        liq_penalty: i128,
        stab_fee_bps: i128,
        debt_ceiling: i128,
    ) -> Result<(Self, Seq<Effect>), Error> {
        match self.dao_error(dao) {
            Some(e) => Err(e),
            None => if min_cr <= liq_cr {
                Err(Error::MinRatioTooLow)
            } else if liq_penalty > MAX_PENALTY {
                Err(Error::PenaltyTooHigh)
            } else {
                Ok(
                    (
                        EngineState {
                            configs: self.configs.insert(
                                symbol,
                                AssetConfig {
                                    token,
                                    oracle_symbol: oracle_sym,
                                    coll_oracle_sym: coll_oracle,
                                    min_coll_ratio: min_cr,
                                    liq_ratio: liq_cr,
                                    liq_penalty,
                                    stab_fee_bps,
                                    debt_ceiling,
                                    enabled: true,
                                },
                            ),
                            ..self
                        },
                        seq![
                            Effect::RequireAuth(dao),
                            Effect::MarketCreated(
                                MarketCreatedEvent {
                                    symbol,
                                    token,
                                    oracle_symbol: oracle_sym,
                                    coll_oracle_symbol: coll_oracle,
                                    min_coll_ratio: min_cr,
                                    liq_ratio: liq_cr,
                                    liq_penalty,
                                    stab_fee_bps,
                                    debt_ceiling,
                                },
                            ),
                        ],
                    ),
                )
            },
        }
    }

    pub open spec fn set_collateral_allowed(
        self,
        dao: Address,
        token: Address,
        allowed: bool,
    ) -> Result<(Self, Seq<Effect>), Error> {
        match self.dao_error(dao) {
            Some(e) => Err(e),
            None => Ok(
                (
                    EngineState {
                        collateral_allowed: if allowed {
                            self.collateral_allowed.insert(token, true)
                        } else {
                            self.collateral_allowed.remove(token)
                        },
                        ..self
                    },
                    seq![Effect::RequireAuth(dao)],
                ),
            ),
        }
    }

    /// The contract with another configuration of a market.
    pub open spec fn with_config(self, symbol: Symbol, cfg: AssetConfig) -> Self {
        EngineState { configs: self.configs.insert(symbol, cfg), ..self }
    }

    pub open spec fn set_asset_enabled(self, dao: Address, symbol: Symbol, enabled: bool) -> Result<
        (Self, Seq<Effect>),
        Error,
    > {
        match self.dao_error(dao) {
            Some(e) => Err(e),
            None => if !self.configs.contains_key(symbol) {
                Err(Error::AssetNotConfigured)
            } else {
                Ok(
                    (
                        self.with_config(
                            symbol,
                            AssetConfig { enabled, ..self.configs[symbol] },
                        ),
                        seq![Effect::RequireAuth(dao)],
                    ),
                )
            },
        }
    }

    pub open spec fn set_debt_ceiling(self, dao: Address, symbol: Symbol, ceiling: i128) -> Result<
        (Self, Seq<Effect>),
        Error,
    > {
        match self.dao_error(dao) {
            Some(e) => Err(e),
            None => if !self.configs.contains_key(symbol) {
                Err(Error::AssetNotConfigured)
            } else {
                Ok(
                    (
                        self.with_config(
                            symbol,
                            AssetConfig { debt_ceiling: ceiling, ..self.configs[symbol] },
                        ),
                        seq![Effect::RequireAuth(dao)],
                    ),
                )
            },
        }
    }

    pub open spec fn set_stability_pool(self, admin: Address, pool: Address) -> Result<
        (Self, Seq<Effect>),
        Error,
    > {
        match self.admin_error(admin) {
            Some(e) => Err(e),
            None => Ok(
                (
                    EngineState { stab_pool: Some(pool), ..self },
                    seq![Effect::RequireAuth(admin)],
                ),
            ),
        }
    }

    pub open spec fn set_paused(self, admin: Address, paused: bool) -> Result<
        (Self, Seq<Effect>),
        Error,
    > {
        match self.admin_error(admin) {
            Some(e) => Err(e),
            None => Ok((EngineState { paused, ..self }, seq![Effect::RequireAuth(admin)])),
        }
    }

    pub open spec fn upgrade(self, new_wasm_hash: WasmHash) -> Result<(Self, Seq<Effect>), Error> {
        match self.dao {
            None => Err(Error::NotInitialised),
            Some(dao) => Ok(
                (self, seq![Effect::RequireAuth(dao), Effect::UpdateWasm(new_wasm_hash)]),
            ),
        }
    }

    // ── Vaults ────────────────────────────────────────────────────

    /// What a user's call starts with.
    pub open spec fn gate(self, env: Context, user: Address) -> Seq<Effect> {
        seq![
            Effect::RequireAuth(user),
            Effect::AssertUserCompliant {
                registry: self.compliance->0,
                caller: env.contract,
                user,
            },
        ]
    }

    /// The check that a user may get an amount of an asset.
    pub open spec fn transfer_check(
        self,
        env: Context,
        user: Address,
        synth: Symbol,
        amount: i128,
    ) -> Effect {
        Effect::AssertTransferAllowed {
            registry: self.compliance->0,
            caller: env.contract,
            from: user,
            to: user,
            asset: synth,
            amount,
        }
    }

    pub open spec fn open_vault(
        self,
        env: Context,
        owner: Address,
        synth: Symbol,
        coll_token: Address,
        coll_amount: i128,
    ) -> Result<(Self, Seq<Effect>), Error> {
        if self.paused {
            Err(Error::ProtocolPaused)
        } else if self.compliance is None {
            Err(Error::NotInitialised)
        } else if !self.is_allowed(coll_token) {
            Err(Error::CollateralNotWhitelisted)
        } else if !self.configs.contains_key(synth) {
            Err(Error::AssetNotRegistered)
        } else if !self.configs[synth].enabled {
            Err(Error::AssetDisabled)
        } else if self.vaults.contains_key((owner, synth)) {
            Err(Error::VaultAlreadyOpen)
        } else if coll_amount <= 0 {
            Err(Error::CollateralNotPositive)
        } else {
            Ok(
                (
                    EngineState {
                        vaults: self.vaults.insert(
                            (owner, synth),
                            Vault {
                                owner,
                                collateral: coll_amount,
                                collateral_tok: coll_token,
                                synth_asset: synth,
                                debt: 0,
                                opened_at: env.timestamp,
                                last_update: env.timestamp,
                            },
                        ),
                        vaults_by_owner: self.vaults_by_owner.insert(
                            owner,
                            self.owned(owner).push(synth),
                        ),
                        ..self
                    },
                    self.gate(env, owner) + seq![
                        self.transfer_check(env, owner, synth, 0),
                        Effect::Transfer {
                            token: coll_token,
                            from: owner,
                            to: env.contract,
                            amount: coll_amount,
                        },
                        Effect::Open(
                            OpenEvent {
                                owner,
                                synth_asset: synth,
                                collateral_token: coll_token,
                                collateral_amount: coll_amount,
                            },
                        ),
                    ],
                ),
            )
        }
    }

    pub open spec fn deposit_collateral(
        self,
        env: Context,
        owner: Address,
        synth: Symbol,
        amount: i128,
    ) -> Result<(Self, Seq<Effect>), Error> {
        let vault = self.vaults[(owner, synth)];
        if self.paused {
            Err(Error::ProtocolPaused)
        } else if self.compliance is None {
            Err(Error::NotInitialised)
        } else if amount <= 0 {
            Err(Error::AmountNotPositive)
        } else if !self.vaults.contains_key((owner, synth)) {
            Err(Error::VaultNotFound)
        } else if !arith::fits(vault.collateral + amount) {
            Err(Error::Arithmetic)
        } else {
            Ok(
                (
                    EngineState {
                        vaults: self.vaults.insert(
                            (owner, synth),
                            Vault {
                                collateral: (vault.collateral + amount) as i128,
                                last_update: env.timestamp,
                                ..vault
                            },
                        ),
                        ..self
                    },
                    self.gate(env, owner) + seq![
                        Effect::Transfer {
                            token: vault.collateral_tok,
                            from: owner,
                            to: env.contract,
                            amount,
                        },
                        Effect::Deposit(DepositEvent { owner, synth_asset: synth, amount }),
                    ],
                ),
            )
        }
    }

    /// Why a collateral does not carry a debt.
    pub open spec fn cover_error(
        self,
        collateral: int,
        debt: int,
        cfg: AssetConfig,
        coll_price: i128,
        synth_price: i128,
    ) -> Option<Error> {
        let left = arith::saturate(arith::saturate(collateral * coll_price) * PRECISION);
        let right = arith::saturate(arith::saturate(debt * synth_price) * cfg.min_coll_ratio);
        if self.oracle is None {
            Some(Error::NotInitialised)
        } else if left < right {
            Some(Error::CollateralRatioTooLow)
        } else {
            None
        }
    }

    /// The effects of the fee for a mint.
    pub open spec fn fee_effects(
        self,
        env: Context,
        owner: Address,
        cfg: AssetConfig,
        fee: int,
    ) -> Seq<Effect> {
        if fee <= 0 {
            Seq::empty()
        } else {
            seq![Effect::Burn { token: cfg.token, from: owner, amount: fee as i128 }] + (
            match self.earnings {
                None => Seq::empty(),
                Some(distributor) => seq![
                    Effect::ReceiveRevenue {
                        distributor,
                        sender: env.contract,
                        token: cfg.token,
                        amount: fee as i128,
                        source: Symbol { head: STABFEE, tail: 0 },
                        partner_id: 0,
                    },
                ],
            })
        }
    }

    pub open spec fn mint_synth(
        self,
        env: Context,
        owner: Address,
        synth: Symbol,
        amount: i128,
        coll_price: i128,
        synth_price: i128,
    ) -> Result<(Self, Seq<Effect>), Error> {
        let vault = self.vaults[(owner, synth)];
        let cfg = self.configs[synth];
        let total = self.debt_total(synth);
        let debt = arith::saturate(vault.debt + amount);
        if self.paused {
            Err(Error::ProtocolPaused)
        } else if amount <= 0 {
            Err(Error::AmountNotPositive)
        } else if self.compliance is None {
            Err(Error::NotInitialised)
        } else if !self.vaults.contains_key((owner, synth)) {
            Err(Error::VaultNotFound)
        } else if !self.configs.contains_key(synth) {
            Err(Error::AssetNotConfigured)
        } else if !cfg.enabled {
            Err(Error::AssetDisabled)
        } else if arith::saturate(total + amount) > cfg.debt_ceiling {
            Err(Error::DebtCeilingExceeded)
        } else {
            match self.cover_error(vault.collateral as int, debt, cfg, coll_price, synth_price) {
                Some(e) => Err(e),
                None => if !arith::fits(total + amount) {
                    Err(Error::Arithmetic)
                } else {
                    Ok(
                        (
                            EngineState {
                                vaults: self.vaults.insert(
                                    (owner, synth),
                                    Vault {
                                        debt: debt as i128,
                                        last_update: env.timestamp,
                                        ..vault
                                    },
                                ),
                                debt_totals: self.debt_totals.insert(
                                    synth,
                                    (total + amount) as i128,
                                ),
                                ..self
                            },
                            self.gate(env, owner) + seq![
                                self.transfer_check(env, owner, synth, amount),
                                Effect::Mint { token: cfg.token, to: owner, amount },
                            ] + self.fee_effects(
                                env,
                                owner,
                                cfg,
                                mint_fee(amount as int, cfg.stab_fee_bps as int),
                            ) + seq![
                                Effect::Minted(MintEvent { owner, synth_asset: synth, amount }),
                            ],
                        ),
                    )
                },
            }
        }
    }

    pub open spec fn burn_synth(
        self,
        env: Context,
        owner: Address,
        synth: Symbol,
        amount: i128,
    ) -> Result<(Self, Seq<Effect>), Error> {
        let vault = self.vaults[(owner, synth)];
        let repay = arith::min(amount as int, vault.debt as int);
        let total = self.debt_total(synth);
        if amount <= 0 {
            Err(Error::AmountNotPositive)
        } else if self.compliance is None {
            Err(Error::NotInitialised)
        } else if !self.vaults.contains_key((owner, synth)) {
            Err(Error::VaultNotFound)
        } else if !self.configs.contains_key(synth) {
            Err(Error::AssetNotConfigured)
        } else if !arith::fits(vault.debt - repay) || !arith::fits(total - repay) {
            Err(Error::Arithmetic)
        } else {
            Ok(
                (
                    EngineState {
                        vaults: self.vaults.insert(
                            (owner, synth),
                            Vault {
                                debt: (vault.debt - repay) as i128,
                                last_update: env.timestamp,
                                ..vault
                            },
                        ),
                        debt_totals: self.debt_totals.insert(
                            synth,
                            arith::max(total - repay, 0) as i128,
                        ),
                        ..self
                    },
                    self.gate(env, owner) + seq![
                        Effect::Burn {
                            token: self.configs[synth].token,
                            from: owner,
                            amount: repay as i128,
                        },
                        Effect::Burnt(
                            BurnEvent { owner, synth_asset: synth, amount: repay as i128 },
                        ),
                    ],
                ),
            )
        }
    }

    pub open spec fn withdraw_collateral(
        self,
        env: Context,
        owner: Address,
        synth: Symbol,
        amount: i128,
        coll_price: i128,
        synth_price: i128,
    ) -> Result<(Self, Seq<Effect>), Error> {
        let vault = self.vaults[(owner, synth)];
        let left = vault.collateral - amount;
        if self.paused {
            Err(Error::ProtocolPaused)
        } else if amount <= 0 {
            Err(Error::AmountNotPositive)
        } else if self.compliance is None {
            Err(Error::NotInitialised)
        } else if !self.vaults.contains_key((owner, synth)) {
            Err(Error::VaultNotFound)
        } else if !self.configs.contains_key(synth) {
            Err(Error::AssetNotConfigured)
        } else if left < 0 {
            Err(Error::InsufficientCollateral)
        } else if vault.debt > 0 && self.cover_error(
            left,
            vault.debt as int,
            self.configs[synth],
            coll_price,
            synth_price,
        ) is Some {
            Err(
                self.cover_error(
                    left,
                    vault.debt as int,
                    self.configs[synth],
                    coll_price,
                    synth_price,
                )->0,
            )
        } else {
            Ok(
                (
                    EngineState {
                        vaults: self.vaults.insert(
                            (owner, synth),
                            Vault {
                                collateral: left as i128,
                                last_update: env.timestamp,
                                ..vault
                            },
                        ),
                        ..self
                    },
                    self.gate(env, owner) + seq![
                        Effect::Transfer {
                            token: vault.collateral_tok,
                            from: env.contract,
                            to: owner,
                            amount,
                        },
                        Effect::Withdraw(WithdrawEvent { owner, synth_asset: synth, amount }),
                    ],
                ),
            )
        }
    }

    // ── Liquidation ───────────────────────────────────────────────

    /// The vaults after a liquidation: a vault without debt is closed.
    pub open spec fn vaults_after(
        self,
        env: Context,
        owner: Address,
        synth: Symbol,
        done: Settlement,
    ) -> Map<(Address, Symbol), Vault> {
        if done.debt == 0 && done.collateral >= 0 {
            self.vaults.remove((owner, synth))
        } else {
            self.vaults.insert(
                (owner, synth),
                Vault {
                    collateral: done.collateral,
                    debt: done.debt,
                    last_update: env.timestamp,
                    ..self.vaults[(owner, synth)]
                },
            )
        }
    }

    /// The effect that hands what a closed vault still held to the stability
    /// pool.
    pub open spec fn leftover_effects(self, env: Context, token: Address, done: Settlement) -> Seq<
        Effect,
    > {
        if done.debt == 0 && done.collateral > 0 && self.stab_pool is Some {
            seq![
                Effect::Transfer {
                    token,
                    from: env.contract,
                    to: self.stab_pool->0,
                    amount: done.collateral,
                },
            ]
        } else {
            Seq::empty()
        }
    }

    pub open spec fn liquidate(
        self,
        env: Context,
        liquidator: Address,
        owner: Address,
        synth: Symbol,
        repay_amt: i128,
        coll_price: i128,
        synth_price: i128,
    ) -> Result<(Self, Seq<Effect>), Error> {
        let vault = self.vaults[(owner, synth)];
        let cfg = self.configs[synth];
        let total = self.debt_total(synth);
        if self.paused {
            Err(Error::ProtocolPaused)
        } else if repay_amt <= 0 {
            Err(Error::RepayNotPositive)
        } else if self.compliance is None {
            Err(Error::NotInitialised)
        } else if !self.vaults.contains_key((owner, synth)) {
            Err(Error::VaultNotFound)
        } else if !self.configs.contains_key(synth) {
            Err(Error::AssetNotConfigured)
        } else if self.oracle is None {
            Err(Error::NotInitialised)
        } else {
            match settled(vault, cfg, repay_amt, coll_price, synth_price) {
                Err(e) => Err(e),
                Ok(done) => if !arith::fits(total - done.repay) {
                    Err(Error::Arithmetic)
                } else {
                    Ok(
                        (
                            EngineState {
                                vaults: self.vaults_after(env, owner, synth, done),
                                debt_totals: self.debt_totals.insert(
                                    synth,
                                    arith::max(total - done.repay, 0) as i128,
                                ),
                                ..self
                            },
                            self.gate(env, liquidator) + seq![
                                Effect::Burn {
                                    token: cfg.token,
                                    from: liquidator,
                                    amount: done.repay,
                                },
                                Effect::Transfer {
                                    token: vault.collateral_tok,
                                    from: env.contract,
                                    to: liquidator,
                                    amount: done.award,
                                },
                            ] + self.leftover_effects(env, vault.collateral_tok, done) + seq![
                                Effect::Liquidated(
                                    LiquidationEvent {
                                        owner,
                                        synth_asset: synth,
                                        collateral_seized: done.award,
                                    },
                                ),
                            ],
                        ),
                    )
                },
            }
        }
    }

    // ── Views ─────────────────────────────────────────────────────

    pub open spec fn get_cr_bps(
        self,
        owner: Address,
        synth: Symbol,
        coll_price: i128,
        synth_price: i128,
    ) -> Result<i128, Error> {
        if !self.vaults.contains_key((owner, synth)) {
            Err(Error::VaultNotFound)
        } else if self.vaults[(owner, synth)].debt == 0 {
            Ok(i128::MAX)
        } else if !self.configs.contains_key(synth) {
            Err(Error::AssetNotConfigured)
        } else if self.oracle is None {
            Err(Error::NotInitialised)
        } else {
            ratio(self.vaults[(owner, synth)], coll_price, synth_price)
        }
    }

    pub open spec fn is_liquidatable(
        self,
        owner: Address,
        synth: Symbol,
        coll_price: i128,
        synth_price: i128,
    ) -> Result<bool, Error> {
        if !self.vaults.contains_key((owner, synth)) || self.vaults[(owner, synth)].debt == 0 {
            Ok(false)
        } else {
            match self.get_cr_bps(owner, synth, coll_price, synth_price) {
                Err(e) => Err(e),
                Ok(cr) => Ok(cr < self.configs[synth].liq_ratio),
            }
        }
    }
}

// ── What always holds ─────────────────────────────────────────────

/// What a vault adds to the debt of an asset.
pub open spec fn debt_in(synth: Symbol) -> spec_fn((Address, Symbol), Vault) -> int {
    |key: (Address, Symbol), vault: Vault|
        if key.1 == synth {
            vault.debt as int
        } else {
            0
        }
}

impl EngineState {
    /// What holds of the engine at all times: the debt of an asset is that of
    /// its vaults, no vault is negative, every market has sane ratios, and
    /// the settings are made together.
    pub open spec fn sound(self) -> bool {
        &&& self.vaults.dom().finite()
        &&& (self.admin is Some) == (self.dao is Some)
        &&& (self.oracle is Some) == (self.dao is Some)
        &&& (self.compliance is Some) == (self.dao is Some)
        &&& forall|synth: Symbol| #[trigger]
            self.debt_total(synth) == sums::total(self.vaults, debt_in(synth))
        &&& forall|key: (Address, Symbol)| #[trigger]
            self.vaults.contains_key(key) ==> self.vault_sound(key)
        &&& forall|synth: Symbol| #[trigger]
            self.configs.contains_key(synth) ==> self.config_sound(synth)
    }

    pub open spec fn vault_sound(self, key: (Address, Symbol)) -> bool {
        let vault = self.vaults[key];
        &&& vault.owner == key.0
        &&& vault.synth_asset == key.1
        &&& vault.collateral >= 0
        &&& vault.debt >= 0
        &&& self.configs.contains_key(key.1)
        &&& self.owned(key.0).contains(key.1)
    }

    pub open spec fn config_sound(self, synth: Symbol) -> bool {
        let cfg = self.configs[synth];
        &&& cfg.min_coll_ratio > cfg.liq_ratio
        &&& cfg.liq_penalty <= MAX_PENALTY
    }
}

/// A call that can change the contract.
pub enum Call {
    Initialize {
        admin: Address,
        oracle: Address,
        compliance: Address,
        earnings: Address,
        dao: Address,
    },
    RegisterAsset {
        dao: Address,
        symbol: Symbol,
        token: Address,
        oracle_sym: Symbol,
        coll_oracle: Symbol,
        min_cr: i128,
        liq_cr: i128,
        liq_penalty: i128,
        stab_fee_bps: i128,
        debt_ceiling: i128,
    },
    SetCollateralAllowed { dao: Address, token: Address, allowed: bool },
    SetAssetEnabled { dao: Address, symbol: Symbol, enabled: bool },
    SetDebtCeiling { dao: Address, symbol: Symbol, ceiling: i128 },
    SetStabilityPool { admin: Address, pool: Address },
    SetPaused { admin: Address, paused: bool },
    Upgrade { new_wasm_hash: WasmHash },
    OpenVault { owner: Address, synth: Symbol, coll_token: Address, coll_amount: i128 },
    DepositCollateral { owner: Address, synth: Symbol, amount: i128 },
    MintSynth {
        owner: Address,
        synth: Symbol,
        amount: i128,
        coll_price: i128,
        synth_price: i128,
    },
    BurnSynth { owner: Address, synth: Symbol, amount: i128 },
    WithdrawCollateral {
        owner: Address,
        synth: Symbol,
        amount: i128,
        coll_price: i128,
        synth_price: i128,
    },
    Liquidate {
        liquidator: Address,
        owner: Address,
        synth: Symbol,
        repay_amt: i128,
        coll_price: i128,
        synth_price: i128,
    },
}

impl EngineState {
    /// The contract after a call.
    pub open spec fn after(self, env: Context, call: Call) -> EngineState {
        match call {
            Call::Initialize { admin, oracle, compliance, earnings, dao } => error::next(
                self,
                self.initialize(admin, oracle, compliance, earnings, dao),
            ),
            Call::RegisterAsset {
                dao,
                symbol,
                token,
                oracle_sym,
                coll_oracle,
                min_cr,
                liq_cr,
                liq_penalty,
                stab_fee_bps,
                debt_ceiling,
            } => error::next(
                self,
                self.register_asset(
                    dao,
                    symbol,
                    token,
                    oracle_sym,
                    coll_oracle,
                    min_cr,
                    liq_cr,
                    liq_penalty,
                    stab_fee_bps,
                    debt_ceiling,
                ),
            ),
            Call::SetCollateralAllowed { dao, token, allowed } => error::next(
                self,
                self.set_collateral_allowed(dao, token, allowed),
            ),
            Call::SetAssetEnabled { dao, symbol, enabled } => error::next(
                self,
                self.set_asset_enabled(dao, symbol, enabled),
            ),
            Call::SetDebtCeiling { dao, symbol, ceiling } => error::next(
                self,
                self.set_debt_ceiling(dao, symbol, ceiling),
            ),
            Call::SetStabilityPool { admin, pool } => error::next(
                self,
                self.set_stability_pool(admin, pool),
            ),
            Call::SetPaused { admin, paused } => error::next(self, self.set_paused(admin, paused)),
            Call::Upgrade { new_wasm_hash } => error::next(self, self.upgrade(new_wasm_hash)),
            Call::OpenVault { owner, synth, coll_token, coll_amount } => error::next(
                self,
                self.open_vault(env, owner, synth, coll_token, coll_amount),
            ),
            Call::DepositCollateral { owner, synth, amount } => error::next(
                self,
                self.deposit_collateral(env, owner, synth, amount),
            ),
            Call::MintSynth { owner, synth, amount, coll_price, synth_price } => error::next(
                self,
                self.mint_synth(env, owner, synth, amount, coll_price, synth_price),
            ),
            Call::BurnSynth { owner, synth, amount } => error::next(
                self,
                self.burn_synth(env, owner, synth, amount),
            ),
            Call::WithdrawCollateral { owner, synth, amount, coll_price, synth_price } =>
                error::next(
                self,
                self.withdraw_collateral(env, owner, synth, amount, coll_price, synth_price),
            ),
            Call::Liquidate { liquidator, owner, synth, repay_amt, coll_price, synth_price } =>
                error::next(
                self,
                self.liquidate(env, liquidator, owner, synth, repay_amt, coll_price, synth_price),
            ),
        }
    }
}

} // verus!
