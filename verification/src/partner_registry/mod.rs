//! The partners, what they earned and the assets that they submitted.
//!
//! A partner's number tags the transactions that the partner brings. A share
//! of the fees on those is booked here, and only the partner's own wallet
//! claims it.
pub mod laws;
pub mod model;
pub mod outcomes;

use crate::arith;
use crate::error::Error;
use crate::partner_registry::model::{PartnerState, PartnerView};
use crate::table;
use crate::table::Table;
use crate::types::{Address, Context, Symbol, WasmHash};
use vstd::prelude::*;

verus! {

/// A partner's share at first, in hundredths of a percent.
pub const DEFAULT_PARTNER_SHARE: i128 = 5_000;

/// The largest share that the DAO can grant.
pub const MAX_PARTNER_SHARE: i128 = 8_000;

/// What registering oneself costs: a thousand USDC, with seven decimals.
pub const REGISTRATION_FEE: i128 = 10_000_000_000;

/// The largest debt ceiling of a partner's asset: a million USDC, with seven
/// decimals.
pub const MAX_PARTNER_CEILING: i128 = 10_000_000_000_000;

/// The largest liquidation penalty of a partner's asset, in hundredths of a
/// percent.
pub const MAX_PARTNER_PENALTY: i128 = 1_500;

/// The letter with which the symbol of a partner's asset starts: `P`.
pub const PREFIX: u8 = 0x50;

/// The longest symbol of a partner's asset.
pub const MAX_PARTNER_SYMBOL: usize = 9;

/// A partner.
#[derive(Clone, PartialEq, Eq, Debug)]
pub struct Partner {
    /// The tag of the transactions that the partner brings.
    pub id: u32,
    /// The wallet that claims the revenue.
    pub owner: Address,
    pub name: String,
    /// Hundredths of a percent.
    pub revenue_share: i128,
    /// Earned and not yet claimed.
    pub pending_revenue: i128,
    /// Ever earned.
    pub total_earned: i128,
    /// The assets that the partner submitted.
    pub deployed_assets: Vec<Symbol>,
    pub active: bool,
    pub registered_at: u64,
    pub total_volume: i128,
}

impl View for Partner {
    type V = PartnerView;

    open spec fn view(&self) -> PartnerView {
        PartnerView {
            id: self.id,
            owner: self.owner,
            name: self.name@,
            revenue_share: self.revenue_share,
            pending_revenue: self.pending_revenue,
            total_earned: self.total_earned,
            deployed_assets: self.deployed_assets@,
            active: self.active,
            registered_at: self.registered_at,
            total_volume: self.total_volume,
        }
    }
}

/// An asset that a partner submitted.
#[derive(Clone, Copy, PartialEq, Eq, Structural, Debug)]
pub struct PartnerAsset {
    pub symbol: Symbol,
    pub token: Address,
    pub partner_id: u32,
    pub oracle_symbol: Symbol,
    pub debt_ceiling: i128,
    /// The DAO activated it.
    pub live: bool,
    pub deployed_at: u64,
}

#[derive(Clone, Copy, PartialEq, Eq, Structural, Debug)]
pub struct PartnerRegistered {
    pub owner: Address,
    pub id: u32,
}

#[derive(Clone, Copy, PartialEq, Eq, Structural, Debug)]
pub struct RevenueForwarded {
    pub partner_id: u32,
    pub amount: i128,
    pub epoch: u64,
}

#[derive(Clone, Copy, PartialEq, Eq, Structural, Debug)]
pub struct RevenueClaimed {
    pub partner_owner: Address,
    pub claimable: i128,
}

#[derive(Clone, Copy, PartialEq, Eq, Structural, Debug)]
pub struct AssetDeployed {
    pub partner_owner: Address,
    pub symbol: Symbol,
    pub id: u32,
    pub token: Address,
}

#[derive(Clone, Copy, PartialEq, Eq, Structural, Debug)]
pub struct AssetActivated {
    pub symbol: Symbol,
    pub partner_id: u32,
}

#[derive(Clone, Copy, PartialEq, Eq, Structural, Debug)]
pub struct PartnerDeactivated {
    pub partner_id: u32,
}

/// What a call does outside the contract, in the order in which it does it.
#[derive(Clone, Copy, PartialEq, Eq, Structural, Debug)]
pub enum Effect {
    /// The address must have authorised the call.
    RequireAuth(Address),
    /// Tokens change hands.
    Transfer { token: Address, from: Address, to: Address, amount: i128 },
    /// The contract's code is replaced.
    UpdateWasm(WasmHash),
    PartnerRegistered(PartnerRegistered),
    RevenueForwarded(RevenueForwarded),
    RevenueClaimed(RevenueClaimed),
    AssetDeployed(AssetDeployed),
    AssetActivated(AssetActivated),
    PartnerDeactivated(PartnerDeactivated),
}

/// The partners and their assets.
pub struct PartnerRegistry {
    pub admin: Option<Address>,
    pub dao: Option<Address>,
    pub usdc: Option<Address>,
    pub engine: Option<Address>,
    pub earnings: Option<Address>,
    pub partner_count: u32,
    /// Whether wallets may register themselves.
    pub open_registration: bool,
    pub partners: Table<u32, Partner>,
    pub by_owner: Table<Address, u32>,
    pub assets: Table<Symbol, PartnerAsset>,
    /// What each partner earned in each epoch.
    pub epoch_revenue: Table<(u32, u64), i128>,
}

impl View for PartnerRegistry {
    type V = PartnerState;

    open spec fn view(&self) -> PartnerState {
        PartnerState {
            admin: self.admin,
            dao: self.dao,
            usdc: self.usdc,
            engine: self.engine,
            earnings: self.earnings,
            partner_count: self.partner_count,
            open_registration: self.open_registration,
            partners: table::views(self.partners@),
            by_owner: self.by_owner@,
            assets: self.assets@,
            epoch_revenue: self.epoch_revenue@,
        }
    }
}

/// A copy of symbols.
fn symbols_of(symbols: &Vec<Symbol>) -> (r: Vec<Symbol>)
    ensures
        r@ == symbols@,
{
    let mut r: Vec<Symbol> = Vec::new();
    let mut i: usize = 0;
    while i < symbols.len()
        invariant
            i <= symbols@.len(),
            r@ =~= symbols@.take(i as int),
        decreases symbols@.len() - i,
    {
        r.push(symbols[i]);
        i = i + 1;
    }
    r
}

impl PartnerRegistry {
    /// The contract before it is set up.
    pub fn new() -> (r: PartnerRegistry)
        ensures
            r@ == PartnerState::blank(),
    {
        let r = PartnerRegistry {
            admin: None,
            dao: None,
            usdc: None,
            engine: None,
            earnings: None,
            partner_count: 0,
            open_registration: false,
            partners: Table::new(),
            by_owner: Table::new(),
            assets: Table::new(),
            epoch_revenue: Table::new(),
        };
        assert(r@ =~= PartnerState::blank());
        r
    }

    /// Sets up the contract. Once. Wallets may not register themselves yet.
    pub fn initialize(
        &mut self,
        admin: Address,
        dao: Address,
        usdc: Address,
        engine: Address,
        earnings: Address,
    ) -> (r: Result<Vec<Effect>, Error>)
        ensures
            crate::error::agrees(
                r,
                old(self)@,
                final(self)@,
                old(self)@.initialize(admin, dao, usdc, engine, earnings),
            ),
    {
        if self.admin.is_some() {
            return Err(Error::AlreadyInitialised);
        }
        self.admin = Some(admin);
        self.dao = Some(dao);
        self.usdc = Some(usdc);
        self.engine = Some(engine);
        self.earnings = Some(earnings);
        self.partner_count = 0;
        self.open_registration = false;
        Ok(vec![Effect::RequireAuth(admin)])
    }

    // ── Registration ──────────────────────────────────────────────

    /// Registers a partner. The DAO that is stored must authorise this.
    pub fn register_partner(&mut self, env: &Context, _dao: Address, owner: Address, name: String) -> (r:
        Result<(u32, Vec<Effect>), Error>)
        ensures
            crate::error::agrees_on(
                r,
                old(self)@,
                final(self)@,
                old(self)@.register_partner(*env, owner, name@),
            ),
    {
        let dao = self._require_dao()?;
        let id: u32 = self._insert_partner(env, owner, name)?;
        Ok(
            (
                id,
                vec![
                    Effect::RequireAuth(dao),
                    Effect::PartnerRegistered(PartnerRegistered { owner, id }),
                ],
            ),
        )
    }

    /// Another name of [`PartnerRegistry::register_partner`].
    pub fn dao_register_partner(
        &mut self,
        env: &Context,
        dao: Address,
        owner: Address,
        name: String,
    ) -> (r: Result<(u32, Vec<Effect>), Error>)
        ensures
            crate::error::agrees_on(
                r,
                old(self)@,
                final(self)@,
                old(self)@.register_partner(*env, owner, name@),
            ),
    {
        self.register_partner(env, dao, owner, name)
    }

    /// Registers the caller, for a fee, where the DAO allows this.
    pub fn self_register(&mut self, env: &Context, owner: Address, name: String) -> (r: Result<
        (u32, Vec<Effect>),
        Error,
    >)
        ensures
            crate::error::agrees_on(
                r,
                old(self)@,
                final(self)@,
                old(self)@.self_register(*env, owner, name@),
            ),
    {
        if !self.open_registration {
            return Err(Error::SelfRegistrationDisabled);
        }
        let (usdc, earnings) = match (self.usdc, self.earnings) {
            (Some(usdc), Some(earnings)) => (usdc, earnings),
            _ => return Err(Error::NotInitialised),
        };
        let id: u32 = self._insert_partner(env, owner, name)?;
        Ok(
            (
                id,
                vec![
                    Effect::RequireAuth(owner),
                    Effect::Transfer {
                        token: usdc,
                        from: owner,
                        to: earnings,
                        amount: REGISTRATION_FEE,
                    },
                    Effect::PartnerRegistered(PartnerRegistered { owner, id }),
                ],
            ),
        )
    }

    // ── Assets ────────────────────────────────────────────────────

    /// Submits a synthetic asset under the partner's name. It can be minted
    /// only once the DAO activates it.
    pub fn register_partner_asset(
        &mut self,
        env: &Context,
        partner_owner: Address,
        symbol: Symbol,
        token: Address,
        oracle_symbol: Symbol,
        _coll_oracle: Symbol,
        min_cr: i128,
        liq_cr: i128,
        liq_penalty: i128,
        _stab_fee_bps: i128,
        debt_ceiling: i128,
    ) -> (r: Result<Vec<Effect>, Error>)
        ensures
            crate::error::agrees(
                r,
                old(self)@,
                final(self)@,
                old(self)@.register_partner_asset(
                    *env,
                    partner_owner,
                    symbol,
                    token,
                    oracle_symbol,
                    min_cr,
                    liq_cr,
                    liq_penalty,
                    debt_ceiling,
                ),
            ),
    {
        broadcast use table::lemma_views_insert;

        let id: u32 = self._partner_id_by_owner(partner_owner)?;
        let mut partner = self._get_partner(id)?;
        if !partner.active {
            return Err(Error::PartnerNotActive);
        }
        let text = symbol.bytes();
        if text.len() == 0 || text[0] != PREFIX {
            return Err(Error::SymbolNotPrefixed);
        }
        if text.len() > MAX_PARTNER_SYMBOL {
            return Err(Error::SymbolTooLong);
        }
        if debt_ceiling > MAX_PARTNER_CEILING {
            return Err(Error::PartnerCeilingExceeded);
        }
        if min_cr <= liq_cr {
            return Err(Error::PartnerRatioTooLow);
        }
        if liq_penalty > MAX_PARTNER_PENALTY {
            return Err(Error::PartnerPenaltyTooHigh);
        }
        if self.assets.contains(&symbol) {
            return Err(Error::AssetAlreadyRegistered);
        }
        let asset = PartnerAsset {
            symbol,
            token,
            partner_id: id,
            oracle_symbol,
            debt_ceiling,
            live: false,
            deployed_at: env.timestamp,
        };
        self.assets.insert(symbol, asset);
        partner.deployed_assets.push(symbol);
        self.partners.insert(id, partner);
        Ok(
            vec![
                Effect::RequireAuth(partner_owner),
                Effect::AssetDeployed(AssetDeployed { partner_owner, symbol, id, token }),
            ],
        )
    }

    /// Lets a partner's asset go live.
    pub fn activate_partner_asset(&mut self, _dao: Address, symbol: Symbol) -> (r: Result<
        Vec<Effect>,
        Error,
    >)
        ensures
            crate::error::agrees(
                r,
                old(self)@,
                final(self)@,
                old(self)@.activate_partner_asset(symbol),
            ),
    {
        let dao = self._require_dao()?;
        let mut asset: PartnerAsset = match self.assets.get(&symbol) {
            Some(a) => *a,
            None => return Err(Error::PartnerAssetNotFound),
        };
        if asset.live {
            return Err(Error::AssetAlreadyLive);
        }
        asset.live = true;
        self.assets.insert(symbol, asset);
        Ok(
            vec![
                Effect::RequireAuth(dao),
                Effect::AssetActivated(AssetActivated { symbol, partner_id: asset.partner_id }),
            ],
        )
    }

    // ── Revenue ───────────────────────────────────────────────────

    /// Books what a partner earned. Only the earnings distributor does.
    pub fn credit_partner_revenue(
        &mut self,
        earnings_contract: Address,
        partner_id: u32,
        amount: i128,
        epoch: u64,
    ) -> (r: Result<Vec<Effect>, Error>)
        ensures
            crate::error::agrees(
                r,
                old(self)@,
                final(self)@,
                old(self)@.credit_partner_revenue(earnings_contract, partner_id, amount, epoch),
            ),
    {
        broadcast use table::lemma_views_insert;

        match self.earnings {
            None => return Err(Error::NotInitialised),
            Some(registered) => {
                if earnings_contract != registered {
                    return Err(Error::OnlyEarnings);
                }
            },
        }
        let mut partner = self._get_partner(partner_id)?;
        if !partner.active {
            return Err(Error::PartnerNotActive);
        }
        partner.pending_revenue = arith::plus(partner.pending_revenue, amount)?;
        partner.total_earned = arith::plus(partner.total_earned, amount)?;
        let earned: i128 = arith::plus(self.get_epoch_revenue(partner_id, epoch), amount)?;
        self.partners.insert(partner_id, partner);
        self.epoch_revenue.insert((partner_id, epoch), earned);
        Ok(
            vec![
                Effect::RequireAuth(earnings_contract),
                Effect::RevenueForwarded(RevenueForwarded { partner_id, amount, epoch }),
            ],
        )
    }

    /// Pays a partner what was earned and not claimed yet. A partner that was
    /// deactivated can still claim.
    pub fn claim_revenue(&mut self, env: &Context, partner_owner: Address) -> (r: Result<
        (i128, Vec<Effect>),
        Error,
    >)
        ensures
            crate::error::agrees_on(
                r,
                old(self)@,
                final(self)@,
                old(self)@.claim_revenue(*env, partner_owner),
            ),
    {
        broadcast use table::lemma_views_insert;

        let id: u32 = self._partner_id_by_owner(partner_owner)?;
        let mut partner = self._get_partner(id)?;
        let claimable: i128 = partner.pending_revenue;
        if claimable <= 0 {
            return Err(Error::NoRevenue);
        }
        let usdc: Address = match self.usdc {
            Some(a) => a,
            None => return Err(Error::NotInitialised),
        };
        partner.pending_revenue = 0;
        self.partners.insert(id, partner);
        Ok(
            (
                claimable,
                vec![
                    Effect::RequireAuth(partner_owner),
                    Effect::Transfer {
                        token: usdc,
                        from: env.contract,
                        to: partner_owner,
                        amount: claimable,
                    },
                    Effect::RevenueClaimed(RevenueClaimed { partner_owner, claimable }),
                ],
            ),
        )
    }

    // ── Management ────────────────────────────────────────────────

    /// Sets a partner's share.
    pub fn set_partner_share(&mut self, _dao: Address, partner_id: u32, new_share: i128) -> (r:
        Result<Vec<Effect>, Error>)
        ensures
            crate::error::agrees(
                r,
                old(self)@,
                final(self)@,
                old(self)@.set_partner_share(partner_id, new_share),
            ),
    {
        broadcast use table::lemma_views_insert;

        let dao = self._require_dao()?;
        if new_share > MAX_PARTNER_SHARE {
            return Err(Error::ShareTooHigh);
        }
        let mut partner = self._get_partner(partner_id)?;
        partner.revenue_share = new_share;
        self.partners.insert(partner_id, partner);
        Ok(vec![Effect::RequireAuth(dao)])
    }

    /// Deactivates a partner: nothing more is booked. What was earned can
    /// still be claimed.
    pub fn deactivate_partner(&mut self, _dao: Address, partner_id: u32) -> (r: Result<
        Vec<Effect>,
        Error,
    >)
        ensures
            crate::error::agrees(
                r,
                old(self)@,
                final(self)@,
                old(self)@.deactivate_partner(partner_id),
            ),
    {
        broadcast use table::lemma_views_insert;

        let dao = self._require_dao()?;
        let mut partner = self._get_partner(partner_id)?;
        partner.active = false;
        self.partners.insert(partner_id, partner);
        Ok(
            vec![
                Effect::RequireAuth(dao),
                Effect::PartnerDeactivated(PartnerDeactivated { partner_id }),
            ],
        )
    }

    /// Activates a partner again.
    pub fn reactivate_partner(&mut self, _dao: Address, partner_id: u32) -> (r: Result<
        Vec<Effect>,
        Error,
    >)
        ensures
            crate::error::agrees(
                r,
                old(self)@,
                final(self)@,
                old(self)@.reactivate_partner(partner_id),
            ),
    {
        broadcast use table::lemma_views_insert;

        let dao = self._require_dao()?;
        let mut partner = self._get_partner(partner_id)?;
        partner.active = true;
        self.partners.insert(partner_id, partner);
        Ok(vec![Effect::RequireAuth(dao)])
    }

    /// Lets wallets register themselves, or stops to.
    pub fn set_open_registration(&mut self, _dao: Address, open: bool) -> (r: Result<
        Vec<Effect>,
        Error,
    >)
        ensures
            crate::error::agrees(
                r,
                old(self)@,
                final(self)@,
                old(self)@.set_open_registration(open),
            ),
    {
        let dao = self._require_dao()?;
        self.open_registration = open;
        Ok(vec![Effect::RequireAuth(dao)])
    }

    /// Sets the DAO.
    pub fn set_dao(&mut self, admin: Address, dao: Address) -> (r: Result<Vec<Effect>, Error>)
        ensures
            crate::error::agrees(r, old(self)@, final(self)@, old(self)@.set_dao(admin, dao)),
    {
        match self.admin {
            None => return Err(Error::NotInitialised),
            Some(stored) => {
                if admin != stored {
                    return Err(Error::AdminOnly);
                }
            },
        }
        self.dao = Some(dao);
        Ok(vec![Effect::RequireAuth(admin)])
    }

    /// Replaces the contract's code; what it stores stays. The DAO that is
    /// stored must authorise this.
    pub fn upgrade(&mut self, _dao: Address, new_wasm_hash: WasmHash) -> (r: Result<
        Vec<Effect>,
        Error,
    >)
        ensures
            crate::error::agrees(r, old(self)@, final(self)@, old(self)@.upgrade(new_wasm_hash)),
    {
        let dao = self._require_dao()?;
        Ok(vec![Effect::RequireAuth(dao), Effect::UpdateWasm(new_wasm_hash)])
    }

    /// Whether wallets may register themselves.
    pub fn is_open_registration(&self) -> (r: bool)
        ensures
            r == self@.open_registration,
    {
        self.open_registration
    }

    // ── Views ─────────────────────────────────────────────────────

    /// The partner.
    pub fn get_partner(&self, id: u32) -> (r: Option<Partner>)
        ensures
            match r {
                Some(p) => self@.partners.contains_key(id) && self@.partners[id] == p@,
                None => !self@.partners.contains_key(id),
            },
    {
        match self._get_partner(id) {
            Ok(p) => Some(p),
            Err(_) => None,
        }
    }

    /// The share of an active partner; zero for others.
    pub fn get_revenue_share(&self, partner_id: u32) -> (r: i128)
        ensures
            r == self@.get_revenue_share(partner_id),
    {
        match self.partners.get(&partner_id) {
            Some(p) => if p.active {
                p.revenue_share
            } else {
                0
            },
            None => 0,
        }
    }

    /// The wallet of a partner.
    pub fn get_partner_owner(&self, partner_id: u32) -> (r: Option<Address>)
        ensures
            r == self@.get_partner_owner(partner_id),
    {
        match self.partners.get(&partner_id) {
            Some(p) => Some(p.owner),
            None => None,
        }
    }

    /// The number of the partner with a wallet.
    pub fn get_partner_id(&self, owner: Address) -> (r: Option<u32>)
        ensures
            r == self@.get_partner_id(owner),
    {
        match self.by_owner.get(&owner) {
            Some(id) => Some(*id),
            None => None,
        }
    }

    /// The asset.
    pub fn get_partner_asset(&self, symbol: Symbol) -> (r: Option<PartnerAsset>)
        ensures
            r == (if self@.assets.contains_key(symbol) {
                Some(self@.assets[symbol])
            } else {
                None
            }),
    {
        match self.assets.get(&symbol) {
            Some(a) => Some(*a),
            None => None,
        }
    }

    /// The assets that a partner submitted.
    pub fn get_partner_assets(&self, partner_id: u32) -> (r: Result<Vec<Symbol>, Error>)
        ensures
            crate::error::seen(r) == (if self@.partners.contains_key(partner_id) {
                Ok::<Seq<Symbol>, Error>(self@.partners[partner_id].deployed_assets)
            } else {
                Err(Error::PartnerNotFound)
            }),
    {
        let partner = self._get_partner(partner_id)?;
        Ok(partner.deployed_assets)
    }

    /// How many partners registered.
    pub fn partner_count(&self) -> (r: u32)
        ensures
            r == self@.partner_count,
    {
        self.partner_count
    }

    /// What a partner earned in an epoch.
    pub fn get_epoch_revenue(&self, partner_id: u32, epoch: u64) -> (r: i128)
        ensures
            r == self@.earned_in(partner_id, epoch),
    {
        match self.epoch_revenue.get(&(partner_id, epoch)) {
            Some(a) => *a,
            None => 0,
        }
    }

    /// Whether a wallet is that of an active partner.
    pub fn is_partner(&self, addr: Address) -> (r: bool)
        ensures
            r == self@.is_partner(addr),
    {
        match self.by_owner.get(&addr) {
            None => false,
            Some(id) => match self.partners.get(id) {
                Some(p) => p.active,
                None => false,
            },
        }
    }

    /// No partner is exempt from compliance.
    pub fn has_kyc_bypass(&self, _partner_id: u32) -> (r: bool)
        ensures
            r == false,
    {
        false
    }

    fn _get_partner(&self, id: u32) -> (r: Result<Partner, Error>)
        ensures
            crate::error::seen(r) == (if self@.partners.contains_key(id) {
                Ok::<PartnerView, Error>(self@.partners[id])
            } else {
                Err(Error::PartnerNotFound)
            }),
    {
        match self.partners.get(&id) {
            None => Err(Error::PartnerNotFound),
            Some(p) => Ok(
                Partner {
                    id: p.id,
                    owner: p.owner,
                    name: p.name.clone(),
                    revenue_share: p.revenue_share,
                    pending_revenue: p.pending_revenue,
                    total_earned: p.total_earned,
                    deployed_assets: symbols_of(&p.deployed_assets),
                    active: p.active,
                    registered_at: p.registered_at,
                    total_volume: p.total_volume,
                },
            ),
        }
    }

    fn _partner_id_by_owner(&self, owner: Address) -> (r: Result<u32, Error>)
        ensures
            r == (if self@.by_owner.contains_key(owner) {
                Ok::<u32, Error>(self@.by_owner[owner])
            } else {
                Err(Error::NotAPartner)
            }),
    {
        match self.by_owner.get(&owner) {
            Some(id) => Ok(*id),
            None => Err(Error::NotAPartner),
        }
    }

    /// The DAO that is stored. Whoever calls, that one must authorise.
    fn _require_dao(&self) -> (r: Result<Address, Error>)
        ensures
            r == match self@.dao {
                Some(a) => Ok::<Address, Error>(a),
                None => Err(Error::NotInitialised),
            },
    {
        match self.dao {
            Some(a) => Ok(a),
            None => Err(Error::NotInitialised),
        }
    }

    fn _insert_partner(&mut self, env: &Context, owner: Address, name: String) -> (r: Result<
        u32,
        Error,
    >)
        ensures
            match old(self)@.with_partner(*env, owner, name@) {
                Err(e) => r == Err::<u32, Error>(e) && final(self)@ == old(self)@,
                Ok((next, id)) => r == Ok::<u32, Error>(id) && final(self)@ == next,
            },
    {
        broadcast use table::lemma_views_insert;

        if self.by_owner.contains(&owner) {
            return Err(Error::AlreadyPartner);
        }
        if self.partner_count == u32::MAX {
            return Err(Error::Arithmetic);
        }
        let id: u32 = self.partner_count + 1;
        let partner = Partner {
            id,
            owner,
            name,
            revenue_share: DEFAULT_PARTNER_SHARE,
            pending_revenue: 0,
            total_earned: 0,
            deployed_assets: Vec::new(),
            active: true,
            registered_at: env.timestamp,
            total_volume: 0,
        };
        proof {
            assert(partner.deployed_assets@ =~= Seq::<Symbol>::empty());
        }
        self.partners.insert(id, partner);
        self.by_owner.insert(owner, id);
        self.partner_count = id;
        Ok(id)
    }
}

} // verus!
