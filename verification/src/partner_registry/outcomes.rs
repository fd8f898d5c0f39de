//! What the calls on the registry book, pay and leave, told from the records
//! that it stores.
use crate::arith;
use crate::error::Error;
use crate::partner_registry::model::{PartnerState, PartnerView};
use crate::partner_registry::{
    AssetActivated, AssetDeployed, Effect, PartnerAsset, PartnerDeactivated, PartnerRegistered,
    RevenueClaimed, RevenueForwarded,
};
use crate::sums;
use crate::types::{Address, Context, Symbol, WasmHash};
use vstd::prelude::*;

verus! {

// ── Registration ──────────────────────────────────────────────────

/// The registry with one more partner under the next number: half of what it
/// brings is its share, and it has earned nothing and submitted nothing yet.
pub open spec fn with_one_more(
    s: PartnerState,
    env: Context,
    owner: Address,
    name: Seq<char>,
) -> PartnerState {
    let id = (s.partner_count + 1) as u32;
    PartnerState {
        partner_count: id,
        by_owner: s.by_owner.insert(owner, id),
        partners: s.partners.insert(
            id,
            PartnerView {
                id,
                owner,
                name,
                revenue_share: 5_000,
                pending_revenue: 0,
                total_earned: 0,
                deployed_assets: Seq::empty(),
                active: true,
                registered_at: env.timestamp,
                total_volume: 0,
            },
        ),
        ..s
    }
}

/// A wallet becomes a partner once: on the word of the DAO, or on its own where
/// that is open, for a fee of a thousand USDC to the earnings distributor.
/// Numbers are given in turn.
pub proof fn law_registration(s: PartnerState, env: Context, owner: Address, name: Seq<char>)
    ensures
        s.register_partner(env, owner, name) is Ok <==> {
            &&& s.dao is Some
            &&& !s.by_owner.contains_key(owner)
            &&& s.partner_count < 0xffff_ffff
        },
        s.register_partner(env, owner, name) matches Ok((t, id, effects)) ==> {
            &&& id == s.partner_count + 1
            &&& t == with_one_more(s, env, owner, name)
            &&& effects == seq![
                Effect::RequireAuth(s.dao->0),
                Effect::PartnerRegistered(PartnerRegistered { owner, id }),
            ]
        },
        s.register_partner(env, owner, name) matches Err(e) ==> e == (if s.dao is None {
            Error::NotInitialised
        } else if s.by_owner.contains_key(owner) {
            Error::AlreadyPartner
        } else {
            Error::Arithmetic
        }),
        s.self_register(env, owner, name) is Ok <==> {
            &&& s.open_registration
            &&& s.usdc is Some
            &&& s.earnings is Some
            &&& !s.by_owner.contains_key(owner)
            &&& s.partner_count < 0xffff_ffff
        },
        s.self_register(env, owner, name) matches Ok((t, id, effects)) ==> {
            &&& id == s.partner_count + 1
            &&& t == with_one_more(s, env, owner, name)
            &&& effects == seq![
                Effect::RequireAuth(owner),
                Effect::Transfer {
                    token: s.usdc->0,
                    from: owner,
                    to: s.earnings->0,
                    amount: 10_000_000_000,
                },
                Effect::PartnerRegistered(PartnerRegistered { owner, id }),
            ]
        },
        s.self_register(env, owner, name) matches Err(e) ==> e == (if !s.open_registration {
            Error::SelfRegistrationDisabled
        } else if s.usdc is None || s.earnings is None {
            Error::NotInitialised
        } else if s.by_owner.contains_key(owner) {
            Error::AlreadyPartner
        } else {
            Error::Arithmetic
        }),
{
}

// ── Assets ────────────────────────────────────────────────────────

/// An active partner submits an asset under a new symbol that starts with a
/// capital P and has at most nine characters, within the bounds on its ceiling,
/// its ratios and its penalty. The asset waits for the DAO; the partner's list
/// has it last.
pub proof fn law_submit_asset(
    s: PartnerState,
    env: Context,
    owner: Address,
    symbol: Symbol,
    token: Address,
    oracle_symbol: Symbol,
    min_cr: i128,
    liq_cr: i128,
    liq_penalty: i128,
    debt_ceiling: i128,
)
    ensures
        ({
            let id = s.by_owner[owner];
            let partner = s.partners[id];
            let step = s.register_partner_asset(
                env,
                owner,
                symbol,
                token,
                oracle_symbol,
                min_cr,
                liq_cr,
                liq_penalty,
                debt_ceiling,
            );
            &&& step is Ok <==> {
                &&& s.by_owner.contains_key(owner)
                &&& s.partners.contains_key(id)
                &&& partner.active
                &&& 1 <= symbol.text().len() <= 9
                &&& symbol.text()[0] == 0x50
                &&& debt_ceiling <= 10_000_000_000_000
                &&& min_cr > liq_cr
                &&& liq_penalty <= 1_500
                &&& !s.assets.contains_key(symbol)
            }
            &&& step matches Ok((t, effects)) ==> {
                &&& t == (PartnerState {
                    assets: s.assets.insert(
                        symbol,
                        PartnerAsset {
                            symbol,
                            token,
                            partner_id: id,
                            oracle_symbol,
                            debt_ceiling,
                            live: false,
                            deployed_at: env.timestamp,
                        },
                    ),
                    partners: s.partners.insert(
                        id,
                        PartnerView {
                            deployed_assets: partner.deployed_assets.push(symbol),
                            ..partner
                        },
                    ),
                    ..s
                })
                &&& effects == seq![
                    Effect::RequireAuth(owner),
                    Effect::AssetDeployed(AssetDeployed { partner_owner: owner, symbol, id, token }),
                ]
            }
            &&& step matches Err(e) ==> e == (if !s.by_owner.contains_key(owner) {
                Error::NotAPartner
            } else if !s.partners.contains_key(id) {
                Error::PartnerNotFound
            } else if !partner.active {
                Error::PartnerNotActive
            } else if symbol.text().len() == 0 || symbol.text()[0] != 0x50 {
                Error::SymbolNotPrefixed
            } else if symbol.text().len() > 9 {
                Error::SymbolTooLong
            } else if debt_ceiling > 10_000_000_000_000 {
                Error::PartnerCeilingExceeded
            } else if min_cr <= liq_cr {
                Error::PartnerRatioTooLow
            } else if liq_penalty > 1_500 {
                Error::PartnerPenaltyTooHigh
            } else {
                Error::AssetAlreadyRegistered
            })
        }),
{
}

/// The DAO makes an asset live, once; nothing else of it changes.
pub proof fn law_activate_asset(s: PartnerState, symbol: Symbol)
    ensures
        s.activate_partner_asset(symbol) is Ok <==> {
            &&& s.dao is Some
            &&& s.assets.contains_key(symbol)
            &&& !s.assets[symbol].live
        },
        s.activate_partner_asset(symbol) matches Ok((t, effects)) ==> {
            let asset = s.assets[symbol];
            &&& t == (PartnerState {
                assets: s.assets.insert(symbol, PartnerAsset { live: true, ..asset }),
                ..s
            })
            &&& effects == seq![
                Effect::RequireAuth(s.dao->0),
                Effect::AssetActivated(AssetActivated { symbol, partner_id: asset.partner_id }),
            ]
        },
        s.activate_partner_asset(symbol) matches Err(e) ==> e == (if s.dao is None {
            Error::NotInitialised
        } else if !s.assets.contains_key(symbol) {
            Error::PartnerAssetNotFound
        } else {
            Error::AssetAlreadyLive
        }),
{
}

// ── Revenue ───────────────────────────────────────────────────────

/// What the earnings distributor forwards to an active partner is added to what
/// the partner can claim, to all that it ever earned, and to what it earned in
/// the epoch.
pub proof fn law_credit(
    s: PartnerState,
    earnings: Address,
    partner_id: u32,
    amount: i128,
    epoch: u64,
)
    ensures
        ({
            let partner = s.partners[partner_id];
            let booked = sums::amount_at(s.epoch_revenue, (partner_id, epoch));
            let step = s.credit_partner_revenue(earnings, partner_id, amount, epoch);
            &&& step is Ok <==> {
                &&& s.earnings == Some(earnings)
                &&& s.partners.contains_key(partner_id)
                &&& partner.active
                &&& arith::fits(partner.pending_revenue + amount)
                &&& arith::fits(partner.total_earned + amount)
                &&& arith::fits(booked + amount)
            }
            &&& step matches Ok((t, effects)) ==> {
                &&& t == (PartnerState {
                    partners: s.partners.insert(
                        partner_id,
                        PartnerView {
                            pending_revenue: (partner.pending_revenue + amount) as i128,
                            total_earned: (partner.total_earned + amount) as i128,
                            ..partner
                        },
                    ),
                    epoch_revenue: s.epoch_revenue.insert(
                        (partner_id, epoch),
                        (booked + amount) as i128,
                    ),
                    ..s
                })
                &&& effects == seq![
                    Effect::RequireAuth(earnings),
                    Effect::RevenueForwarded(RevenueForwarded { partner_id, amount, epoch }),
                ]
            }
            &&& step matches Err(e) ==> e == (if s.earnings is None {
                Error::NotInitialised
            } else if s.earnings != Some(earnings) {
                Error::OnlyEarnings
            } else if !s.partners.contains_key(partner_id) {
                Error::PartnerNotFound
            } else if !partner.active {
                Error::PartnerNotActive
            } else {
                Error::Arithmetic
            })
        }),
{
}

/// A partner claims all that is pending, in USDC and to its own wallet; all that
/// it ever earned stays on record.
pub proof fn law_claim_revenue(s: PartnerState, env: Context, owner: Address)
    ensures
        ({
            let id = s.by_owner[owner];
            let partner = s.partners[id];
            let step = s.claim_revenue(env, owner);
            &&& step is Ok <==> {
                &&& s.by_owner.contains_key(owner)
                &&& s.partners.contains_key(id)
                &&& partner.pending_revenue > 0
                &&& s.usdc is Some
            }
            &&& step matches Ok((t, paid, effects)) ==> {
                &&& paid == partner.pending_revenue
                &&& t == (PartnerState {
                    partners: s.partners.insert(id, PartnerView { pending_revenue: 0, ..partner }),
                    ..s
                })
                &&& effects == seq![
                    Effect::RequireAuth(owner),
                    Effect::Transfer {
                        token: s.usdc->0,
                        from: env.contract,
                        to: owner,
                        amount: partner.pending_revenue,
                    },
                    Effect::RevenueClaimed(
                        RevenueClaimed {
                            partner_owner: owner,
                            claimable: partner.pending_revenue,
                        },
                    ),
                ]
            }
            &&& step matches Err(e) ==> e == (if !s.by_owner.contains_key(owner) {
                Error::NotAPartner
            } else if !s.partners.contains_key(id) {
                Error::PartnerNotFound
            } else if partner.pending_revenue <= 0 {
                Error::NoRevenue
            } else {
                Error::NotInitialised
            })
        }),
{
}

// ── Management ────────────────────────────────────────────────────

/// The DAO sets a partner's share, up to eighty percent, and turns partners off
/// and on; nothing else of the partner changes.
pub proof fn law_management(s: PartnerState, id: u32, share: i128)
    ensures
        s.set_partner_share(id, share) is Ok <==> {
            &&& s.dao is Some
            &&& share <= 8_000
            &&& s.partners.contains_key(id)
        },
        s.set_partner_share(id, share) matches Ok((t, effects)) ==> {
            &&& t == (PartnerState {
                partners: s.partners.insert(
                    id,
                    PartnerView { revenue_share: share, ..s.partners[id] },
                ),
                ..s
            })
            &&& effects == seq![Effect::RequireAuth(s.dao->0)]
        },
        s.set_partner_share(id, share) matches Err(e) ==> e == (if s.dao is None {
            Error::NotInitialised
        } else if share > 8_000 {
            Error::ShareTooHigh
        } else {
            Error::PartnerNotFound
        }),
        s.deactivate_partner(id) is Ok <==> s.dao is Some && s.partners.contains_key(id),
        s.deactivate_partner(id) matches Ok((t, effects)) ==> {
            &&& t == (PartnerState {
                partners: s.partners.insert(id, PartnerView { active: false, ..s.partners[id] }),
                ..s
            })
            &&& effects == seq![
                Effect::RequireAuth(s.dao->0),
                Effect::PartnerDeactivated(PartnerDeactivated { partner_id: id }),
            ]
        },
        s.reactivate_partner(id) is Ok <==> s.dao is Some && s.partners.contains_key(id),
        s.reactivate_partner(id) matches Ok((t, effects)) ==> {
            &&& t == (PartnerState {
                partners: s.partners.insert(id, PartnerView { active: true, ..s.partners[id] }),
                ..s
            })
            &&& effects == seq![Effect::RequireAuth(s.dao->0)]
        },
        s.dao is Some ==> {
            &&& s.deactivate_partner(id) matches Err(e) ==> e == Error::PartnerNotFound
            &&& s.reactivate_partner(id) matches Err(e) ==> e == Error::PartnerNotFound
        },
{
}

/// Setting up stores every address, with registration closed, and works once.
/// The DAO opens and closes registration and lets the code be replaced; the
/// admin names the DAO.
pub proof fn law_setup(
    s: PartnerState,
    admin: Address,
    dao: Address,
    usdc: Address,
    engine: Address,
    earnings: Address,
    open: bool,
    hash: WasmHash,
)
    ensures
        s.initialize(admin, dao, usdc, engine, earnings) is Ok <==> s.admin is None,
        s.initialize(admin, dao, usdc, engine, earnings) matches Ok((t, effects)) ==> {
            &&& effects == seq![Effect::RequireAuth(admin)]
            &&& t == (PartnerState {
                admin: Some(admin),
                dao: Some(dao),
                usdc: Some(usdc),
                engine: Some(engine),
                earnings: Some(earnings),
                partner_count: 0,
                open_registration: false,
                ..s
            })
        },
        s.set_open_registration(open) is Ok <==> s.dao is Some,
        s.set_open_registration(open) matches Ok((t, effects)) ==> {
            &&& t == (PartnerState { open_registration: open, ..s })
            &&& effects == seq![Effect::RequireAuth(s.dao->0)]
        },
        s.set_dao(admin, dao) is Ok <==> s.admin == Some(admin),
        s.set_dao(admin, dao) matches Ok((t, effects)) ==> {
            &&& t == (PartnerState { dao: Some(dao), ..s })
            &&& effects == seq![Effect::RequireAuth(admin)]
        },
        s.admin is Some ==> {
            &&& s.initialize(admin, dao, usdc, engine, earnings) matches Err(e) && e
                == Error::AlreadyInitialised
            &&& s.admin != Some(admin) ==> (s.set_dao(admin, dao) matches Err(e) && e
                == Error::AdminOnly)
        },
        s.upgrade(hash) is Ok <==> s.dao is Some,
        s.upgrade(hash) matches Ok((t, effects)) ==> t == s && effects == seq![
            Effect::RequireAuth(s.dao->0),
            Effect::UpdateWasm(hash),
        ],
        ({
            let b = PartnerState::blank();
            &&& b.admin is None && b.dao is None && b.usdc is None && b.engine is None
            &&& b.earnings is None && b.partner_count == 0 && !b.open_registration
            &&& b.partners == Map::<u32, PartnerView>::empty()
            &&& b.by_owner == Map::<Address, u32>::empty()
            &&& b.assets == Map::<Symbol, PartnerAsset>::empty()
            &&& b.epoch_revenue == Map::<(u32, u64), i128>::empty()
        }),
{
}

/// What is read is what is stored: a partner that is off, or that there is not,
/// has no share, and a wallet is a partner's while that partner is on.
pub proof fn law_reads(s: PartnerState, id: u32, wallet: Address, epoch: u64)
    ensures
        s.partners.contains_key(id) && s.partners[id].active ==> s.get_revenue_share(id)
            == s.partners[id].revenue_share,
        !s.partners.contains_key(id) || !s.partners[id].active ==> s.get_revenue_share(id) == 0,
        s.partners.contains_key(id) ==> s.get_partner_owner(id) == Some(s.partners[id].owner),
        !s.partners.contains_key(id) ==> s.get_partner_owner(id) is None,
        s.by_owner.contains_key(wallet) ==> s.get_partner_id(wallet) == Some(s.by_owner[wallet]),
        !s.by_owner.contains_key(wallet) ==> s.get_partner_id(wallet) is None,
        s.is_partner(wallet) <==> {
            &&& s.by_owner.contains_key(wallet)
            &&& s.partners.contains_key(s.by_owner[wallet])
            &&& s.partners[s.by_owner[wallet]].active
        },
        s.earned_in(id, epoch) == sums::amount_at(s.epoch_revenue, (id, epoch)),
{
}

} // verus!
