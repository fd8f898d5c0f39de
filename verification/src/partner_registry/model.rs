//! What each call on the partner registry does to it.
use crate::arith;
use crate::error;
use crate::error::Error;
use crate::partner_registry::{
    AssetActivated, AssetDeployed, Effect, PartnerAsset, PartnerDeactivated, PartnerRegistered,
    RevenueClaimed, RevenueForwarded, DEFAULT_PARTNER_SHARE, MAX_PARTNER_CEILING,
    MAX_PARTNER_PENALTY, MAX_PARTNER_SHARE, MAX_PARTNER_SYMBOL, PREFIX, REGISTRATION_FEE,
};
use crate::types::{Address, Context, Symbol, WasmHash};
use vstd::prelude::*;

verus! {

/// A partner.
#[verifier::ext_equal]
pub struct PartnerView {
    pub id: u32,
    pub owner: Address,
    pub name: Seq<char>,
    pub revenue_share: i128,
    pub pending_revenue: i128,
    pub total_earned: i128,
    pub deployed_assets: Seq<Symbol>,
    pub active: bool,
    pub registered_at: u64,
    pub total_volume: i128,
}

/// The state of the contract.
#[verifier::ext_equal]
pub struct PartnerState {
    pub admin: Option<Address>,
    pub dao: Option<Address>,
    pub usdc: Option<Address>,
    pub engine: Option<Address>,
    pub earnings: Option<Address>,
    pub partner_count: u32,
    pub open_registration: bool,
    pub partners: Map<u32, PartnerView>,
    pub by_owner: Map<Address, u32>,
    pub assets: Map<Symbol, PartnerAsset>,
    pub epoch_revenue: Map<(u32, u64), i128>,
}

impl PartnerState {
    /// The contract before it is set up.
    pub open spec fn blank() -> PartnerState {
        PartnerState {
            admin: None,
            dao: None,
            usdc: None,
            engine: None,
            earnings: None,
            partner_count: 0,
            open_registration: false,
            partners: Map::empty(),
            by_owner: Map::empty(),
            assets: Map::empty(),
            epoch_revenue: Map::empty(),
        }
    }

    pub open spec fn initialize(
        self,
        admin: Address,
        dao: Address,
        usdc: Address,
        engine: Address,
        earnings: Address,
    ) -> Result<(Self, Seq<Effect>), Error> {
        if self.admin is Some {
            Err(Error::AlreadyInitialised)
        } else {
            Ok(
                (
                    PartnerState {
                        admin: Some(admin),
                        dao: Some(dao),
                        usdc: Some(usdc),
                        engine: Some(engine),
                        earnings: Some(earnings),
                        partner_count: 0,
                        open_registration: false,
                        ..self
                    },
                    seq![Effect::RequireAuth(admin)],
                ),
            )
        }
    }

    // ── Registration ──────────────────────────────────────────────

    /// The state with one more partner, and the partner's number. The first is
    /// number one: zero stands for no partner.
    pub open spec fn with_partner(self, env: Context, owner: Address, name: Seq<char>) -> Result<
        (Self, u32),
        Error,
    > {
        let id = (self.partner_count + 1) as u32;
        if self.by_owner.contains_key(owner) {
            Err(Error::AlreadyPartner)
        } else if self.partner_count == u32::MAX {
            Err(Error::Arithmetic)
        } else {
            let partner = PartnerView {
                id,
                owner,
                name,
                revenue_share: DEFAULT_PARTNER_SHARE,
                pending_revenue: 0,
                total_earned: 0,
                deployed_assets: Seq::empty(),
                active: true,
                registered_at: env.timestamp,
                total_volume: 0,
            };
            Ok(
                (
                    PartnerState {
                        partners: self.partners.insert(id, partner),
                        by_owner: self.by_owner.insert(owner, id),
                        partner_count: id,
                        ..self
                    },
                    id,
                ),
            )
        }
    }

    pub open spec fn register_partner(self, env: Context, owner: Address, name: Seq<char>) -> Result<
        (Self, u32, Seq<Effect>),
        Error,
    > {
        match self.dao {
            None => Err(Error::NotInitialised),
            Some(dao) => match self.with_partner(env, owner, name) {
                Err(e) => Err(e),
                Ok((next, id)) => Ok(
                    (
                        next,
                        id,
                        seq![
                            Effect::RequireAuth(dao),
                            Effect::PartnerRegistered(PartnerRegistered { owner, id }),
                        ],
                    ),
                ),
            },
        }
    }

    pub open spec fn self_register(self, env: Context, owner: Address, name: Seq<char>) -> Result<
        (Self, u32, Seq<Effect>),
        Error,
    > {
        if !self.open_registration {
            Err(Error::SelfRegistrationDisabled)
        } else if self.usdc is None || self.earnings is None {
            Err(Error::NotInitialised)
        } else {
            match self.with_partner(env, owner, name) {
                Err(e) => Err(e),
                Ok((next, id)) => Ok(
                    (
                        next,
                        id,
                        seq![
                            Effect::RequireAuth(owner),
                            Effect::Transfer {
                                token: self.usdc->0,
                                from: owner,
                                to: self.earnings->0,
                                amount: REGISTRATION_FEE,
                            },
                            Effect::PartnerRegistered(PartnerRegistered { owner, id }),
                        ],
                    ),
                ),
            }
        }
    }

    // ── Assets ────────────────────────────────────────────────────

    pub open spec fn register_partner_asset(
        self,
        env: Context,
        partner_owner: Address,
        symbol: Symbol,
        token: Address,
        oracle_symbol: Symbol,
        min_cr: i128,
        liq_cr: i128,
        liq_penalty: i128,
        debt_ceiling: i128,
    ) -> Result<(Self, Seq<Effect>), Error> {
        let id = self.by_owner[partner_owner];
        let partner = self.partners[id];
        if !self.by_owner.contains_key(partner_owner) {
            Err(Error::NotAPartner)
        } else if !self.partners.contains_key(id) {
            Err(Error::PartnerNotFound)
        } else if !partner.active {
            Err(Error::PartnerNotActive)
        } else if symbol.text().len() == 0 || symbol.text()[0] != PREFIX {
            Err(Error::SymbolNotPrefixed)
        } else if symbol.text().len() > MAX_PARTNER_SYMBOL {
            Err(Error::SymbolTooLong)
        } else if debt_ceiling > MAX_PARTNER_CEILING {
            Err(Error::PartnerCeilingExceeded)
        } else if min_cr <= liq_cr {
            Err(Error::PartnerRatioTooLow)
        } else if liq_penalty > MAX_PARTNER_PENALTY {
            Err(Error::PartnerPenaltyTooHigh)
        } else if self.assets.contains_key(symbol) {
            Err(Error::AssetAlreadyRegistered)
        } else {
            Ok(
                (
                    PartnerState {
                        assets: self.assets.insert(
                            symbol,
                            PartnerAsset {
                                symbol,
                                token,
                                partner_id: id,
                                oracle_symbol,
                                debt_ceiling,
                                live: false,
                                deployed_at: env.timestamp,
                            },
                        ),
                        partners: self.partners.insert(
                            id,
                            PartnerView {
                                deployed_assets: partner.deployed_assets.push(symbol),
                                ..partner
                            },
                        ),
                        ..self
                    },
                    seq![
                        Effect::RequireAuth(partner_owner),
                        Effect::AssetDeployed(AssetDeployed { partner_owner, symbol, id, token }),
                    ],
                ),
            )
        }
    }

    pub open spec fn activate_partner_asset(self, symbol: Symbol) -> Result<
        (Self, Seq<Effect>),
        Error,
    > {
        let asset = self.assets[symbol];
        match self.dao {
            None => Err(Error::NotInitialised),
            Some(dao) => if !self.assets.contains_key(symbol) {
                Err(Error::PartnerAssetNotFound)
            } else if asset.live {
                Err(Error::AssetAlreadyLive)
            } else {
                Ok(
                    (
                        PartnerState {
                            assets: self.assets.insert(
                                symbol,
                                PartnerAsset { live: true, ..asset },
                            ),
                            ..self
                        },
                        seq![
                            Effect::RequireAuth(dao),
                            Effect::AssetActivated(
                                AssetActivated { symbol, partner_id: asset.partner_id },
                            ),
                        ],
                    ),
                )
            },
        }
    }

    // ── Revenue ───────────────────────────────────────────────────

    /// What a partner earned in an epoch.
    pub open spec fn earned_in(self, partner_id: u32, epoch: u64) -> i128 {
        if self.epoch_revenue.contains_key((partner_id, epoch)) {
            self.epoch_revenue[(partner_id, epoch)]
        } else {
            0
        }
    }

    pub open spec fn credit_partner_revenue(
        self,
        earnings_contract: Address,
        partner_id: u32,
        amount: i128,
        epoch: u64,
    ) -> Result<(Self, Seq<Effect>), Error> {
        let partner = self.partners[partner_id];
        if self.earnings is None {
            Err(Error::NotInitialised)
        } else if self.earnings != Some(earnings_contract) {
            Err(Error::OnlyEarnings)
        } else if !self.partners.contains_key(partner_id) {
            Err(Error::PartnerNotFound)
        } else if !partner.active {
            Err(Error::PartnerNotActive)
        } else if !arith::fits(partner.pending_revenue + amount) || !arith::fits(
            partner.total_earned + amount,
        ) || !arith::fits(self.earned_in(partner_id, epoch) + amount) {
            Err(Error::Arithmetic)
        } else {
            Ok(
                (
                    PartnerState {
                        partners: self.partners.insert(
                            partner_id,
                            PartnerView {
                                pending_revenue: (partner.pending_revenue + amount) as i128,
                                total_earned: (partner.total_earned + amount) as i128,
                                ..partner
                            },
                        ),
                        epoch_revenue: self.epoch_revenue.insert(
                            (partner_id, epoch),
                            (self.earned_in(partner_id, epoch) + amount) as i128,
                        ),
                        ..self
                    },
                    seq![
                        Effect::RequireAuth(earnings_contract),
                        Effect::RevenueForwarded(RevenueForwarded { partner_id, amount, epoch }),
                    ],
                ),
            )
        }
    }

    pub open spec fn claim_revenue(self, env: Context, partner_owner: Address) -> Result<
        (Self, i128, Seq<Effect>),
        Error,
    > {
        let id = self.by_owner[partner_owner];
        let partner = self.partners[id];
        let claimable = partner.pending_revenue;
        if !self.by_owner.contains_key(partner_owner) {
            Err(Error::NotAPartner)
        } else if !self.partners.contains_key(id) {
            Err(Error::PartnerNotFound)
        } else if claimable <= 0 {
            Err(Error::NoRevenue)
        } else if self.usdc is None {
            Err(Error::NotInitialised)
        } else {
            Ok(
                (
                    PartnerState {
                        partners: self.partners.insert(
                            id,
                            PartnerView { pending_revenue: 0, ..partner },
                        ),
                        ..self
                    },
                    claimable,
                    seq![
                        Effect::RequireAuth(partner_owner),
                        Effect::Transfer {
                            token: self.usdc->0,
                            from: env.contract,
                            to: partner_owner,
                            amount: claimable,
                        },
                        Effect::RevenueClaimed(RevenueClaimed { partner_owner, claimable }),
                    ],
                ),
            )
        }
    }

    // ── Management ────────────────────────────────────────────────

    pub open spec fn set_partner_share(self, partner_id: u32, new_share: i128) -> Result<
        (Self, Seq<Effect>),
        Error,
    > {
        match self.dao {
            None => Err(Error::NotInitialised),
            Some(dao) => if new_share > MAX_PARTNER_SHARE {
                Err(Error::ShareTooHigh)
            } else if !self.partners.contains_key(partner_id) {
                Err(Error::PartnerNotFound)
            } else {
                Ok(
                    (
                        PartnerState {
                            partners: self.partners.insert(
                                partner_id,
                                PartnerView {
                                    revenue_share: new_share,
                                    ..self.partners[partner_id]
                                },
                            ),
                            ..self
                        },
                        seq![Effect::RequireAuth(dao)],
                    ),
                )
            },
        }
    }

    /// The state with a partner active or not.
    pub open spec fn with_active(self, partner_id: u32, active: bool) -> Self {
        PartnerState {
            partners: self.partners.insert(
                partner_id,
                PartnerView { active, ..self.partners[partner_id] },
            ),
            ..self
        }
    }

    pub open spec fn deactivate_partner(self, partner_id: u32) -> Result<
        (Self, Seq<Effect>),
        Error,
    > {
        match self.dao {
            None => Err(Error::NotInitialised),
            Some(dao) => if !self.partners.contains_key(partner_id) {
                Err(Error::PartnerNotFound)
            } else {
                Ok(
                    (
                        self.with_active(partner_id, false),
                        seq![
                            Effect::RequireAuth(dao),
                            Effect::PartnerDeactivated(PartnerDeactivated { partner_id }),
                        ],
                    ),
                )
            },
        }
    }

    pub open spec fn reactivate_partner(self, partner_id: u32) -> Result<
        (Self, Seq<Effect>),
        Error,
    > {
        match self.dao {
            None => Err(Error::NotInitialised),
            Some(dao) => if !self.partners.contains_key(partner_id) {
                Err(Error::PartnerNotFound)
            } else {
                Ok((self.with_active(partner_id, true), seq![Effect::RequireAuth(dao)]))
            },
        }
    }

    pub open spec fn set_open_registration(self, open: bool) -> Result<(Self, Seq<Effect>), Error> {
        match self.dao {
            None => Err(Error::NotInitialised),
            Some(dao) => Ok(
                (
                    PartnerState { open_registration: open, ..self },
                    seq![Effect::RequireAuth(dao)],
                ),
            ),
        }
    }

    pub open spec fn set_dao(self, admin: Address, dao: Address) -> Result<
        (Self, Seq<Effect>),
        Error,
    > {
        match self.admin {
            None => Err(Error::NotInitialised),
            Some(stored) => if admin != stored {
                Err(Error::AdminOnly)
            } else {
                Ok(
                    (
                        PartnerState { dao: Some(dao), ..self },
                        seq![Effect::RequireAuth(admin)],
                    ),
                )
            },
        }
    }

    pub open spec fn upgrade(self, new_wasm_hash: WasmHash) -> Result<(Self, Seq<Effect>), Error> {
        match self.dao {
            None => Err(Error::NotInitialised),
            Some(dao) => Ok(
                (self, seq![Effect::RequireAuth(dao), Effect::UpdateWasm(new_wasm_hash)]),
            ),
        }
    }

    // ── Views ─────────────────────────────────────────────────────

    pub open spec fn get_revenue_share(self, partner_id: u32) -> i128 {
        if self.partners.contains_key(partner_id) && self.partners[partner_id].active {
            self.partners[partner_id].revenue_share
        } else {
            0
        }
    }

    pub open spec fn get_partner_owner(self, partner_id: u32) -> Option<Address> {
        if self.partners.contains_key(partner_id) {
            Some(self.partners[partner_id].owner)
        } else {
            None
        }
    }

    pub open spec fn get_partner_id(self, owner: Address) -> Option<u32> {
        if self.by_owner.contains_key(owner) {
            Some(self.by_owner[owner])
        } else {
            None
        }
    }

    pub open spec fn is_partner(self, address: Address) -> bool {
        &&& self.by_owner.contains_key(address)
        &&& self.partners.contains_key(self.by_owner[address])
        &&& self.partners[self.by_owner[address]].active
    }

    // ── What always holds ─────────────────────────────────────────

    /// A partner's record agrees with the index of owners, and what the
    /// partner can claim was earned.
    pub open spec fn partner_sound(self, id: u32) -> bool {
        let p = self.partners[id];
        &&& p.id == id
        &&& 1 <= id <= self.partner_count
        &&& self.by_owner.contains_key(p.owner)
        &&& self.by_owner[p.owner] == id
        &&& 0 <= p.pending_revenue <= p.total_earned
        &&& p.revenue_share <= MAX_PARTNER_SHARE
    }

    /// What holds of the contract at all times.
    pub open spec fn sound(self) -> bool {
        &&& self.admin is None ==> self.dao is None && self.partner_count == 0
            && !self.open_registration
        &&& forall|id: u32| #[trigger] self.partners.contains_key(id) ==> self.partner_sound(id)
        &&& forall|id: u32| 1 <= id <= self.partner_count ==> #[trigger] self.partners.contains_key(id)
        &&& forall|owner: Address| #[trigger]
            self.by_owner.contains_key(owner) ==> self.partners.contains_key(self.by_owner[owner])
                && self.partners[self.by_owner[owner]].owner == owner
    }
}

/// A call that can change the contract.
pub enum Call {
    Initialize { admin: Address, dao: Address, usdc: Address, engine: Address, earnings: Address },
    RegisterPartner { owner: Address, name: Seq<char> },
    SelfRegister { owner: Address, name: Seq<char> },
    RegisterPartnerAsset {
        partner_owner: Address,
        symbol: Symbol,
        token: Address,
        oracle_symbol: Symbol,
        min_cr: i128,
        liq_cr: i128,
        liq_penalty: i128,
        debt_ceiling: i128,
    },
    ActivatePartnerAsset { symbol: Symbol },
    CreditPartnerRevenue { earnings_contract: Address, partner_id: u32, amount: i128, epoch: u64 },
    ClaimRevenue { partner_owner: Address },
    SetPartnerShare { partner_id: u32, new_share: i128 },
    DeactivatePartner { partner_id: u32 },
    ReactivatePartner { partner_id: u32 },
    SetOpenRegistration { open: bool },
    SetDao { admin: Address, dao: Address },
}

impl PartnerState {
    /// The contract after a call.
    pub open spec fn after(self, env: Context, call: Call) -> PartnerState {
        match call {
            Call::Initialize { admin, dao, usdc, engine, earnings } => error::next(
                self,
                self.initialize(admin, dao, usdc, engine, earnings),
            ),
            Call::RegisterPartner { owner, name } => error::next_on(
                self,
                self.register_partner(env, owner, name),
            ),
            Call::SelfRegister { owner, name } => error::next_on(
                self,
                self.self_register(env, owner, name),
            ),
            Call::RegisterPartnerAsset {
                partner_owner,
                symbol,
                token,
                oracle_symbol,
                min_cr,
                liq_cr,
                liq_penalty,
                debt_ceiling,
            } => error::next(
                self,
                self.register_partner_asset(
                    env,
                    partner_owner,
                    symbol,
                    token,
                    oracle_symbol,
                    min_cr,
                    liq_cr,
                    liq_penalty,
                    debt_ceiling,
                ),
            ),
            Call::ActivatePartnerAsset { symbol } => error::next(
                self,
                self.activate_partner_asset(symbol),
            ),
            Call::CreditPartnerRevenue { earnings_contract, partner_id, amount, epoch } =>
            error::next(
                self,
                self.credit_partner_revenue(earnings_contract, partner_id, amount, epoch),
            ),
            Call::ClaimRevenue { partner_owner } => error::next_on(
                self,
                self.claim_revenue(env, partner_owner),
            ),
            Call::SetPartnerShare { partner_id, new_share } => error::next(
                self,
                self.set_partner_share(partner_id, new_share),
            ),
            Call::DeactivatePartner { partner_id } => error::next(
                self,
                self.deactivate_partner(partner_id),
            ),
            Call::ReactivatePartner { partner_id } => error::next(
                self,
                self.reactivate_partner(partner_id),
            ),
            Call::SetOpenRegistration { open } => error::next(
                self,
                self.set_open_registration(open),
            ),
            Call::SetDao { admin, dao } => error::next(self, self.set_dao(admin, dao)),
        }
    }
}

} // verus!
