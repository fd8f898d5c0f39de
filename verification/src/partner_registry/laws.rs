//! What holds of the partner registry over several calls.
use crate::error;
use crate::error::Error;
use crate::partner_registry::model::{Call, PartnerState, PartnerView};
use crate::partner_registry::{
    Effect, DEFAULT_PARTNER_SHARE, MAX_PARTNER_CEILING, MAX_PARTNER_SHARE, MAX_PARTNER_SYMBOL,
    PREFIX, REGISTRATION_FEE,
};
use crate::types::{Address, Context, Symbol, WasmHash};
use vstd::prelude::*;

verus! {

/// A partner's record may change where the partner stays the same.
proof fn lemma_partner(s: PartnerState, t: PartnerState, id: u32)
    requires
        s.sound(),
        s.partners.contains_key(id),
        t.partners == s.partners.insert(id, t.partners[id]),
        t.partners[id].id == id,
        t.partners[id].owner == s.partners[id].owner,
        0 <= t.partners[id].pending_revenue <= t.partners[id].total_earned,
        t.partners[id].revenue_share <= MAX_PARTNER_SHARE,
        t.by_owner == s.by_owner,
        t.partner_count == s.partner_count,
        t.admin == s.admin,
        t.dao == s.dao,
        t.open_registration == s.open_registration,
    ensures
        t.sound(),
{
    assert(s.partner_sound(id));
    assert forall|k: u32| #[trigger] t.partners.contains_key(k) implies t.partner_sound(k) by {
        assert(s.partners.contains_key(k));
        assert(s.partner_sound(k));
    }
    assert forall|k: u32| 1 <= k <= t.partner_count implies #[trigger] t.partners.contains_key(k) by {
        assert(s.partners.contains_key(k));
    }
}

proof fn lemma_with_partner(s: PartnerState, env: Context, owner: Address, name: Seq<char>)
    requires
        s.sound(),
        s.admin is Some,
        s.with_partner(env, owner, name) is Ok,
    ensures
        s.with_partner(env, owner, name)->Ok_0.0.sound(),
{
    let (t, id) = s.with_partner(env, owner, name)->Ok_0;
    assert forall|k: u32| #[trigger] t.partners.contains_key(k) implies t.partner_sound(k) by {
        if k != id {
            assert(s.partners.contains_key(k));
            assert(s.partner_sound(k));
        }
    }
    assert forall|k: u32| 1 <= k <= t.partner_count implies #[trigger] t.partners.contains_key(k) by {
        if k != id {
            assert(s.partners.contains_key(k));
        }
    }
    assert forall|o: Address| #[trigger]
        t.by_owner.contains_key(o) implies t.partners.contains_key(t.by_owner[o])
        && t.partners[t.by_owner[o]].owner == o by {
        if o != owner {
            assert(s.by_owner.contains_key(o));
            assert(s.partner_sound(s.by_owner[o]));
        }
    }
}

proof fn lemma_same_partners(s: PartnerState, t: PartnerState)
    requires
        s.sound(),
        t.partners == s.partners,
        t.by_owner == s.by_owner,
        t.partner_count == s.partner_count,
        s.admin is Some ==> t.admin is Some,
        t.admin is None ==> t.dao is None && !t.open_registration,
    ensures
        t.sound(),
{
    assert forall|k: u32| #[trigger] t.partners.contains_key(k) implies t.partner_sound(k) by {
        assert(s.partner_sound(k));
    }
    assert forall|k: u32| 1 <= k <= t.partner_count implies #[trigger] t.partners.contains_key(k) by {
        assert(s.partners.contains_key(k));
    }
}

/// The contract starts sound.
pub proof fn law_starts_sound()
    ensures
        PartnerState::blank().sound(),
{
}

/// Whatever call comes, and whether it is refused or not: partners are
/// numbered from one without gaps, the index of owners agrees with them, nobody can
/// claim what was not earned, and no share is larger than the largest. A
/// booking of a negative amount is left out: no such amount is ever earned.
pub proof fn law_stays_sound(s: PartnerState, env: Context, call: Call)
    requires
        s.sound(),
        call matches Call::CreditPartnerRevenue { amount, .. } ==> amount >= 0,
    ensures
        s.after(env, call).sound(),
{
    let t = s.after(env, call);
    match call {
        Call::Initialize { .. } => {
            lemma_same_partners(s, t);
        },
        Call::RegisterPartner { owner, name } => {
            if s.register_partner(env, owner, name) is Ok {
                lemma_with_partner(s, env, owner, name);
            }
        },
        Call::SelfRegister { owner, name } => {
            if s.self_register(env, owner, name) is Ok {
                lemma_with_partner(s, env, owner, name);
            }
        },
        Call::RegisterPartnerAsset { partner_owner, .. } => {
            if t != s {
                assert(s.partner_sound(s.by_owner[partner_owner]));
                lemma_partner(s, t, s.by_owner[partner_owner]);
            }
        },
        Call::ActivatePartnerAsset { .. } => {
            lemma_same_partners(s, t);
        },
        Call::CreditPartnerRevenue { partner_id, .. } => {
            if t != s {
                assert(s.partner_sound(partner_id));
                lemma_partner(s, t, partner_id);
            }
        },
        Call::ClaimRevenue { partner_owner } => {
            if t != s {
                assert(s.partner_sound(s.by_owner[partner_owner]));
                lemma_partner(s, t, s.by_owner[partner_owner]);
            }
        },
        Call::SetPartnerShare { partner_id, .. } => {
            if t != s {
                assert(s.partner_sound(partner_id));
                lemma_partner(s, t, partner_id);
            }
        },
        Call::DeactivatePartner { partner_id } => {
            if t != s {
                assert(s.partner_sound(partner_id));
                lemma_partner(s, t, partner_id);
            }
        },
        Call::ReactivatePartner { partner_id } => {
            if t != s {
                assert(s.partner_sound(partner_id));
                lemma_partner(s, t, partner_id);
            }
        },
        Call::SetOpenRegistration { .. } => {
            lemma_same_partners(s, t);
        },
        Call::SetDao { .. } => {
            lemma_same_partners(s, t);
        },
    }
}

/// A claim pays the owner all that is pending, and leaves nothing; nobody
/// else can claim it, and what was ever earned stays on record.
pub proof fn law_claim(s: PartnerState, env: Context, owner: Address, other: Address)
    requires
        s.sound(),
        other != owner,
    ensures
        s.claim_revenue(env, owner) matches Ok((t, paid, effects)) ==> {
            let id = s.by_owner[owner];
            &&& s.partners[id].owner == owner
            &&& paid == s.partners[id].pending_revenue
            &&& t.partners[id].pending_revenue == 0
            &&& t.partners[id].total_earned == s.partners[id].total_earned
            &&& effects[0] == Effect::RequireAuth(owner)
            &&& effects[1] == (Effect::Transfer {
                token: s.usdc->0,
                from: env.contract,
                to: owner,
                amount: paid,
            })
            &&& error::refused(t.claim_revenue(env, owner), Error::NoRevenue)
        },
        s.claim_revenue(env, other) matches Ok((t, _, _)) ==> s.by_owner.contains_key(owner)
            ==> t.partners[s.by_owner[owner]] == s.partners[s.by_owner[owner]],
{
    if s.claim_revenue(env, other) is Ok && s.by_owner.contains_key(owner) {
        assert(s.partners[s.by_owner[owner]].owner == owner);
        assert(s.partners[s.by_owner[other]].owner == other);
    }
}

/// What is booked can be claimed.
pub proof fn law_booked_can_be_claimed(
    s: PartnerState,
    env: Context,
    earnings: Address,
    partner_id: u32,
    amount: i128,
    epoch: u64,
)
    requires
        s.sound(),
        amount > 0,
        s.usdc is Some,
    ensures
        s.credit_partner_revenue(earnings, partner_id, amount, epoch) matches Ok((t, effects)) ==> {
            &&& Some(earnings) == s.earnings
            &&& effects[0] == Effect::RequireAuth(earnings)
            &&& t.earned_in(partner_id, epoch) == s.earned_in(partner_id, epoch) + amount
            &&& (t.claim_revenue(env, s.partners[partner_id].owner) matches Ok((_, paid, _))
                && paid == s.partners[partner_id].pending_revenue + amount)
        },
{
    if s.credit_partner_revenue(earnings, partner_id, amount, epoch) is Ok {
        assert(s.partner_sound(partner_id));
    }
}

/// A partner that is deactivated gets no more booked and has no share, but
/// still claims what was earned before; reactivating undoes it.
pub proof fn law_deactivation(
    s: PartnerState,
    env: Context,
    earnings: Address,
    partner_id: u32,
    amount: i128,
    epoch: u64,
)
    requires
        s.sound(),
        s.partners.contains_key(partner_id),
        s.partners[partner_id].active,
    ensures
        s.deactivate_partner(partner_id) matches Ok((t, _)) ==> {
            let owner = s.partners[partner_id].owner;
            let before = s.claim_revenue(env, owner);
            let now = t.claim_revenue(env, owner);
            &&& t.credit_partner_revenue(earnings, partner_id, amount, epoch) is Err
            &&& t.get_revenue_share(partner_id) == 0
            &&& !t.is_partner(owner)
            &&& before is Ok <==> now is Ok
            &&& before is Ok ==> before->Ok_0.1 == now->Ok_0.1 && before->Ok_0.2 == now->Ok_0.2
            &&& (t.reactivate_partner(partner_id) matches Ok((u, _)) && u == s)
        },
{
    assert(s.partner_sound(partner_id));
    if s.deactivate_partner(partner_id) is Ok {
        let t = s.deactivate_partner(partner_id)->Ok_0.0;
        let u = t.reactivate_partner(partner_id)->Ok_0.0;
        assert(u.partners =~= s.partners);
    }
}

/// All partners start alike, with half of the fees that they bring, under the
/// next number, which is never zero: that is the tag of no partner. No wallet becomes a partner twice.
pub proof fn law_registration(s: PartnerState, env: Context, owner: Address, name: Seq<char>)
    requires
        s.sound(),
    ensures
        s.register_partner(env, owner, name) matches Ok((t, id, effects)) ==> {
            &&& id == s.partner_count + 1
            &&& t.partner_count == id
            &&& t.get_partner_id(owner) == Some(id)
            &&& t.get_partner_owner(id) == Some(owner)
            &&& t.get_revenue_share(id) == DEFAULT_PARTNER_SHARE
            &&& t.is_partner(owner)
            &&& effects[0] == Effect::RequireAuth(s.dao->0)
            &&& error::refused(t.register_partner(env, owner, name), Error::AlreadyPartner)
        },
        s.self_register(env, owner, name) matches Ok((t, id, effects)) ==> {
            &&& s.open_registration
            &&& t.get_partner_id(owner) == Some(id)
            &&& effects[0] == Effect::RequireAuth(owner)
            &&& effects[1] == (Effect::Transfer {
                token: s.usdc->0,
                from: owner,
                to: s.earnings->0,
                amount: REGISTRATION_FEE,
            })
        },
        !s.open_registration ==> error::refused(
            s.self_register(env, owner, name),
            Error::SelfRegistrationDisabled,
        ),
{
}

/// An asset that a partner submits is not live, is the partner's own, bears
/// the prefix and stays within the limits; only the DAO lets it go live.
pub proof fn law_assets_await_the_dao(
    s: PartnerState,
    env: Context,
    owner: Address,
    symbol: Symbol,
    token: Address,
    oracle_symbol: Symbol,
    min_cr: i128,
    liq_cr: i128,
    liq_penalty: i128,
    debt_ceiling: i128,
)
    ensures
        s.register_partner_asset(
            env,
            owner,
            symbol,
            token,
            oracle_symbol,
            min_cr,
            liq_cr,
            liq_penalty,
            debt_ceiling,
        ) matches Ok((t, effects)) ==> {
            &&& !t.assets[symbol].live
            &&& t.assets[symbol].partner_id == s.by_owner[owner]
            &&& t.assets[symbol].debt_ceiling <= MAX_PARTNER_CEILING
            &&& symbol.text()[0] == PREFIX
            &&& symbol.text().len() <= MAX_PARTNER_SYMBOL
            &&& t.partners[s.by_owner[owner]].deployed_assets.last() == symbol
            &&& effects[0] == Effect::RequireAuth(owner)
            &&& (t.activate_partner_asset(symbol) matches Ok((u, more)) ==> u.assets[symbol].live
                && more[0] == Effect::RequireAuth(s.dao->0))
        },
{
}

/// No asset goes live but by the call that activates it.
pub proof fn law_only_activation_makes_live(
    s: PartnerState,
    env: Context,
    call: Call,
    symbol: Symbol,
)
    requires
        !(s.assets.contains_key(symbol) && s.assets[symbol].live),
        s.after(env, call).assets.contains_key(symbol),
        s.after(env, call).assets[symbol].live,
    ensures
        call == (Call::ActivatePartnerAsset { symbol }),
{
    match call {
        Call::Initialize { .. } => {},
        Call::RegisterPartner { .. } => {},
        Call::SelfRegister { .. } => {},
        Call::RegisterPartnerAsset { .. } => {},
        Call::ActivatePartnerAsset { .. } => {},
        Call::CreditPartnerRevenue { .. } => {},
        Call::ClaimRevenue { .. } => {},
        Call::SetPartnerShare { .. } => {},
        Call::DeactivatePartner { .. } => {},
        Call::ReactivatePartner { .. } => {},
        Call::SetOpenRegistration { .. } => {},
        Call::SetDao { .. } => {},
    }
}

/// Nobody redirects what a partner earned: no call but the partner's own claim
/// lowers what is pending, and none changes who claims it.
pub proof fn law_revenue_is_safe(s: PartnerState, env: Context, call: Call, partner_id: u32)
    requires
        s.sound(),
        s.partners.contains_key(partner_id),
        !(call is Initialize),
        call matches Call::CreditPartnerRevenue { amount, .. } ==> amount >= 0,
    ensures
        ({
            let t = s.after(env, call);
            &&& t.partners.contains_key(partner_id)
            &&& t.partners[partner_id].owner == s.partners[partner_id].owner
            &&& t.partners[partner_id].pending_revenue < s.partners[partner_id].pending_revenue
                ==> call == (Call::ClaimRevenue { partner_owner: s.partners[partner_id].owner })
        }),
{
    assert(s.partner_sound(partner_id));
    match call {
        Call::Initialize { .. } => {},
        Call::RegisterPartner { .. } => {},
        Call::SelfRegister { .. } => {},
        Call::RegisterPartnerAsset { .. } => {},
        Call::ActivatePartnerAsset { .. } => {},
        Call::CreditPartnerRevenue { .. } => {},
        Call::ClaimRevenue { partner_owner } => {
            if s.claim_revenue(env, partner_owner) is Ok {
                assert(s.partner_sound(s.by_owner[partner_owner]));
            }
        },
        Call::SetPartnerShare { .. } => {},
        Call::DeactivatePartner { .. } => {},
        Call::ReactivatePartner { .. } => {},
        Call::SetOpenRegistration { .. } => {},
        Call::SetDao { .. } => {},
    }
}

/// An upgrade is authorised by the DAO that is stored, and keeps what is
/// stored.
pub proof fn law_upgrade(s: PartnerState, new_wasm_hash: WasmHash)
    ensures
        s.upgrade(new_wasm_hash) matches Ok((t, effects)) ==> t == s && effects[0]
            == Effect::RequireAuth(s.dao->0) && s.dao is Some,
{
}

} // verus!
