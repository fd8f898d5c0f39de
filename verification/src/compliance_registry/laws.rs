//! What holds of the compliance registry over several calls.
use crate::compliance_registry::model;
use crate::compliance_registry::model::{Call, ComplianceState, KycAttestationView};
use crate::compliance_registry::{
    ComplianceRecord, ComplianceStatus, Effect, TRAVEL_RULE_THRESHOLD, US_COUNTRY_CODE,
};
use crate::error;
use crate::error::Error;
use crate::types::{Address, Context, Symbol, WasmHash};
use vstd::prelude::*;

verus! {

/// Listing a provider keeps the providers of every address apart.
proof fn lemma_with_provider(s: ComplianceState, subject: Address, provider: Address)
    requires
        s.sound(),
        s.with_provider(subject, provider) is Ok,
    ensures
        s.with_provider(subject, provider)->Ok_0.sound(),
{
    let t = s.with_provider(subject, provider)->Ok_0;
    let count = s.provider_count(subject);
    assert forall|v: Address| #[trigger] t.verifiers.contains(v) implies exists|i: u32|
        t.stands_at(i, v) by {
        assert(s.verifiers.contains(v));
        let i = choose|i: u32| s.stands_at(i, v);
        assert(t.stands_at(i, v));
    }
    assert forall|a: Address, i: u32| i < t.provider_count(a) implies (
    #[trigger] t.providers.contains_key((a, i))) by {
        if a != subject || i < count {
            assert(s.providers.contains_key((a, i)));
        }
    }
    assert forall|a: Address, i: u32, j: u32|
        i < j < t.provider_count(a) implies #[trigger] t.providers[(a, i)]
        != #[trigger] t.providers[(a, j)] by {
        if a != subject || j < count {
            assert(s.providers[(a, i)] != s.providers[(a, j)]);
        } else if !s.has_provider(subject, provider) {
            assert(s.providers.contains_key((a, i)));
        } else {
            assert(s.providers[(a, i)] != s.providers[(a, j)]);
        }
    }
    lemma_same_records(s, t);
}

/// Authorising a verifier keeps every verifier listed.
proof fn lemma_with_verifier(s: ComplianceState, verifier: Address)
    requires
        s.sound(),
        s.dao is Some,
        s.with_verifier(verifier) is Ok,
    ensures
        s.with_verifier(verifier)->Ok_0.sound(),
{
    let t = s.with_verifier(verifier)->Ok_0;
    assert forall|v: Address| #[trigger] t.verifiers.contains(v) implies exists|i: u32|
        t.stands_at(i, v) by {
        if s.verifiers.contains(v) || s.is_listed(verifier) {
            let i = choose|i: u32| s.stands_at(i, v);
            assert(t.stands_at(i, v));
        } else {
            assert(t.stands_at(s.verifier_count, v));
        }
    }
    assert forall|i: u32, j: u32| i < j < t.verifier_count implies #[trigger] t.verifier_list[i]
        != #[trigger] t.verifier_list[j] by {
        assert(s.verifier_list.contains_key(i));
        if j < s.verifier_count {
            assert(s.verifier_list[i] != s.verifier_list[j]);
        } else if t.verifier_list[i] == verifier {
            assert(s.stands_at(i, verifier));
        }
    }
    assert forall|i: u32| i < t.verifier_count implies #[trigger] t.verifier_list.contains_key(i) by {
        if i < s.verifier_count {
            assert(s.verifier_list.contains_key(i));
        }
    }
    lemma_same_providers(s, t);
    lemma_same_records(s, t);
}

proof fn lemma_same_providers(s: ComplianceState, t: ComplianceState)
    requires
        s.sound(),
        t.providers == s.providers,
        t.provider_counts == s.provider_counts,
    ensures
        forall|a: Address, i: u32|
            i < t.provider_count(a) ==> #[trigger] t.providers.contains_key((a, i)),
        forall|a: Address, i: u32, j: u32|
            i < j < t.provider_count(a) ==> #[trigger] t.providers[(a, i)]
                != #[trigger] t.providers[(a, j)],
{
}

proof fn lemma_same_records(s: ComplianceState, t: ComplianceState)
    requires
        s.sound(),
        t.kyc == s.kyc,
        t.records == s.records,
    ensures
        forall|a: Address| #[trigger] t.record_sound(a),
{
    assert forall|a: Address| #[trigger] t.record_sound(a) by {
        assert(s.record_sound(a));
    }
}

/// Withdrawing authorisations keeps every verifier listed.
proof fn lemma_fewer_verifiers(s: ComplianceState, t: ComplianceState)
    requires
        s.sound(),
        t.admin is None <==> s.admin is None,
        t.dao == s.dao,
        t.verifiers.subset_of(s.verifiers),
        t.verifier_list == s.verifier_list,
        t.verifier_count == s.verifier_count,
        t.providers == s.providers,
        t.provider_counts == s.provider_counts,
        forall|a: Address| #[trigger] t.record_sound(a),
    ensures
        t.sound(),
{
    assert forall|v: Address| #[trigger] t.verifiers.contains(v) implies exists|i: u32|
        t.stands_at(i, v) by {
        assert(s.verifiers.contains(v));
        let i = choose|i: u32| s.stands_at(i, v);
        assert(t.stands_at(i, v));
    }
    assert forall|v: Address| t.dao is None implies !t.verifiers.contains(v) by {
        if t.verifiers.contains(v) {
            assert(s.verifiers.contains(v));
        }
    }
    lemma_same_providers(s, t);
}

/// The contract starts sound.
pub proof fn law_starts_sound()
    ensures
        ComplianceState::blank().sound(),
{
}

/// Whatever call comes, and whether it is refused or not, every authorised
/// provider stays listed, the providers of an address are listed once each,
/// and nobody is verified without an attestation on file.
pub proof fn law_stays_sound(s: ComplianceState, env: Context, call: Call)
    requires
        s.sound(),
    ensures
        s.after(env, call).sound(),
{
    let t = s.after(env, call);
    match call {
        Call::Initialize { admin, dao } => {
            if s.admin is None {
                assert forall|v: Address| #[trigger] t.verifiers.contains(v) implies exists|i: u32|
                    t.stands_at(i, v) by {
                    assert(s.verifiers.contains(v));
                }
                lemma_same_providers(s, t);
                lemma_same_records(s, t);
            }
        },
        Call::SetVerifier { dao, verifier } => {
            if s.set_verifier(dao, verifier) is Ok {
                let mid = s.without_replaced(verifier);
                lemma_same_records(s, mid);
                lemma_fewer_verifiers(s, mid);
                lemma_with_verifier(mid, verifier);
                lemma_same_records(s, t);
                lemma_fewer_verifiers(mid.with_verifier(verifier)->Ok_0, t);
            }
        },
        Call::AddVerifier { dao, verifier } => {
            if s.add_verifier(dao, verifier) is Ok {
                lemma_with_verifier(s, verifier);
            }
        },
        Call::Attest { verifier, subject, jurisdiction, expires_at, metadata } => {
            if s.attest(env, verifier, subject, jurisdiction, expires_at, metadata) is Ok {
                lemma_attestation(s, env, verifier, subject, jurisdiction, expires_at, metadata);
            }
        },
        Call::SubmitAttestation { subject, signer, jurisdiction, expires_at } => {
            if s.submit_attestation(env, subject, signer, jurisdiction, expires_at) is Ok {
                lemma_attestation(
                    s,
                    env,
                    s.signers[signer],
                    subject,
                    jurisdiction,
                    expires_at,
                    Seq::empty(),
                );
            }
        },
        Call::RemoveVerifier { .. } => {
            lemma_same_records(s, t);
            lemma_fewer_verifiers(s, t);
        },
        Call::Revoke { .. } => {
            assert forall|a: Address| #[trigger] t.record_sound(a) by {
                assert(s.record_sound(a));
            }
            lemma_fewer_verifiers(s, t);
        },
        Call::RegisterSigner { .. } => {
            lemma_same_records(s, t);
            lemma_fewer_verifiers(s, t);
        },
        Call::SetAssetRule { .. } => {
            lemma_same_records(s, t);
            lemma_fewer_verifiers(s, t);
        },
        Call::BlockJurisdiction { .. } => {
            lemma_same_records(s, t);
            lemma_fewer_verifiers(s, t);
        },
        Call::UnblockJurisdiction { .. } => {
            lemma_same_records(s, t);
            lemma_fewer_verifiers(s, t);
        },
        Call::BlockUsAndEu { .. } => {
            lemma_same_records(s, t);
            lemma_fewer_verifiers(s, t);
        },
        Call::BlockSanctionedCountries { .. } => {
            lemma_same_records(s, t);
            lemma_fewer_verifiers(s, t);
        },
        Call::FreezeAccount { .. } => {
            lemma_same_records(s, t);
            lemma_fewer_verifiers(s, t);
        },
        Call::UnfreezeAccount { .. } => {
            lemma_same_records(s, t);
            lemma_fewer_verifiers(s, t);
        },
        Call::SetWhitelist { .. } => {
            lemma_same_records(s, t);
            lemma_fewer_verifiers(s, t);
        },
        Call::SuspendAccount { .. } => {
            assert forall|a: Address| #[trigger] t.record_sound(a) by {
                assert(s.record_sound(a));
            }
            lemma_fewer_verifiers(s, t);
        },
        Call::UnsuspendAccount { .. } => {
            assert forall|a: Address| #[trigger] t.record_sound(a) by {
                assert(s.record_sound(a));
            }
            lemma_fewer_verifiers(s, t);
        },
        Call::SanctionAccount { .. } => {
            assert forall|a: Address| #[trigger] t.record_sound(a) by {
                assert(s.record_sound(a));
            }
            lemma_fewer_verifiers(s, t);
        },
        Call::AssertTransferAllowed { .. } => {
            lemma_same_records(s, t);
            lemma_fewer_verifiers(s, t);
        },
    }
}

proof fn lemma_attestation(
    s: ComplianceState,
    env: Context,
    provider: Address,
    subject: Address,
    jurisdiction: u32,
    expires_at: u64,
    metadata: Seq<u8>,
)
    requires
        s.sound(),
        s.with_attestation(env, provider, subject, jurisdiction, expires_at, metadata) is Ok,
    ensures
        s.with_attestation(
            env,
            provider,
            subject,
            jurisdiction,
            expires_at,
            metadata,
        )->Ok_0.sound(),
{
    let mid = ComplianceState {
        kyc: s.kyc.insert(
            subject,
            KycAttestationView {
                address: subject,
                verifier: provider,
                jurisdiction,
                issued_at: env.timestamp,
                expires_at,
                metadata,
            },
        ),
        records: s.records.insert(
            subject,
            s.record(subject).attested(provider, jurisdiction, expires_at, env.timestamp),
        ),
        ..s
    };
    assert forall|a: Address| #[trigger] mid.record_sound(a) by {
        assert(s.record_sound(a));
    }
    lemma_fewer_verifiers(s, mid);
    lemma_with_provider(mid, subject, provider);
}

/// The list of verifiers holds those that are authorised, and no others, each
/// of them once.
pub proof fn law_list_is_complete(s: ComplianceState, verifier: Address)
    requires
        s.sound(),
    ensures
        s.listed(s.verifier_count as nat).contains(verifier) <==> s.verifiers.contains(verifier),
        s.listed(s.verifier_count as nat).no_duplicates(),
{
    lemma_listed_once(s, s.verifier_count as nat);
    if s.verifiers.contains(verifier) {
        let i = choose|i: u32| s.stands_at(i, verifier);
        lemma_listed(s, s.verifier_count as nat, i, verifier);
    }
    lemma_listed_authorised(s, s.verifier_count as nat, verifier);
}

proof fn lemma_listed(s: ComplianceState, n: nat, place: u32, verifier: Address)
    requires
        place < n <= u32::MAX,
        s.stands_at(place, verifier),
        s.verifiers.contains(verifier),
    ensures
        s.listed(n).contains(verifier),
    decreases n,
{
    let before = s.listed((n - 1) as nat);
    if place == n - 1 {
        assert(s.listed(n).last() == verifier);
        assert(s.listed(n)[s.listed(n).len() - 1] == verifier);
    } else {
        lemma_listed(s, (n - 1) as nat, place, verifier);
        let k = choose|k: int| 0 <= k < before.len() && before[k] == verifier;
        assert(s.listed(n)[k] == verifier);
    }
}

/// Every verifier of the list stands at a place of its own.
proof fn lemma_listed_once(s: ComplianceState, n: nat)
    requires
        s.sound(),
        n <= s.verifier_count,
    ensures
        s.listed(n).no_duplicates(),
        forall|v: Address| #[trigger]
            s.listed(n).contains(v) ==> exists|i: u32| i < n && s.stands_at(i, v),
    decreases n,
{
    if n > 0 {
        let before = s.listed((n - 1) as nat);
        let place = (n - 1) as u32;
        lemma_listed_once(s, (n - 1) as nat);
        let v = s.verifier_list[place];
        assert(s.verifier_list.contains_key(place));
        assert(s.stands_at(place, v));
        if before.contains(v) {
            let i = choose|i: u32| i < n - 1 && s.stands_at(i, v);
            assert(s.verifier_list[i] != s.verifier_list[place]);
        }
        assert forall|w: Address| #[trigger] s.listed(n).contains(w) implies exists|i: u32|
            i < n && s.stands_at(i, w) by {
            let k = choose|k: int| 0 <= k < s.listed(n).len() && s.listed(n)[k] == w;
            if k < before.len() {
                assert(before[k] == w);
                assert(before.contains(w));
                let i = choose|i: u32| i < n - 1 && s.stands_at(i, w);
                assert(i < n && s.stands_at(i, w));
            } else {
                assert(place < n && s.stands_at(place, w));
            }
        }
        assert forall|a: int, b: int|
            0 <= a < s.listed(n).len() && 0 <= b < s.listed(n).len() && a != b implies s.listed(n)[a]
            != s.listed(n)[b] by {
            if a < before.len() && b < before.len() {
                assert(before[a] != before[b]);
            } else if a < before.len() {
                assert(before[a] == s.listed(n)[a]);
            } else {
                assert(before[b] == s.listed(n)[b]);
            }
        }
    }
}

proof fn lemma_listed_authorised(s: ComplianceState, n: nat, verifier: Address)
    ensures
        s.listed(n).contains(verifier) ==> s.verifiers.contains(verifier),
    decreases n,
{
    if n > 0 && s.listed(n).contains(verifier) {
        let before = s.listed((n - 1) as nat);
        lemma_listed_authorised(s, (n - 1) as nat, verifier);
        let k = choose|k: int| 0 <= k < s.listed(n).len() && s.listed(n)[k] == verifier;
        if k < before.len() {
            assert(before[k] == verifier);
        }
    }
}

/// As many providers are listed for an address as attested it, each once.
pub proof fn law_providers_once_each(s: ComplianceState, subject: Address)
    requires
        s.sound(),
    ensures
        s.providers_of(subject, s.provider_count(subject) as nat).len() == s.provider_count(
            subject,
        ),
        s.providers_of(subject, s.provider_count(subject) as nat).no_duplicates(),
{
    let n = s.provider_count(subject) as nat;
    lemma_providers_of(s, subject, n);
    let list = s.providers_of(subject, n);
    assert forall|i: int, j: int|
        0 <= i < list.len() && 0 <= j < list.len() && i != j implies list[i] != list[j] by {
        assert(list[i] == s.providers[(subject, i as u32)]);
        assert(list[j] == s.providers[(subject, j as u32)]);
        if i < j {
            assert(s.providers[(subject, i as u32)] != s.providers[(subject, j as u32)]);
        } else {
            assert(s.providers[(subject, j as u32)] != s.providers[(subject, i as u32)]);
        }
    }
}

proof fn lemma_providers_of(s: ComplianceState, subject: Address, n: nat)
    requires
        s.sound(),
        n <= s.provider_count(subject),
    ensures
        s.providers_of(subject, n).len() == n,
        forall|i: int|
            0 <= i < n ==> #[trigger] s.providers_of(subject, n)[i] == s.providers[(
                subject,
                i as u32,
            )],
    decreases n,
{
    if n > 0 {
        lemma_providers_of(s, subject, (n - 1) as nat);
        let place = (n - 1) as u32;
        assert(s.providers.contains_key((subject, place)));
        assert forall|i: int| 0 <= i < n implies #[trigger] s.providers_of(subject, n)[i]
            == s.providers[(subject, i as u32)] by {
            if i < n - 1 {
                assert(s.providers_of(subject, (n - 1) as nat)[i] == s.providers[(
                    subject,
                    i as u32,
                )]);
            }
        }
    }
}

/// A user may act where the user is compliant, or where the user
/// and the caller are both whitelisted; else there is a reason why not. Whoever
/// is compliant has an attestation on file that has not lapsed, in a country
/// that is not blocked.
pub proof fn law_gate(s: ComplianceState, env: Context, caller: Address, user: Address)
    ensures
        s.assert_user_compliant(env, caller, user) == Ok::<bool, Error>(true) <==> (
        s.is_user_compliant(env, user) || (s.whitelist.contains(caller) && s.whitelist.contains(
            user,
        ))),
        s.assert_user_compliant(env, caller, user) is Ok ==> s.assert_user_compliant(
            env,
            caller,
            user,
        ) == Ok::<bool, Error>(true),
        s.sound() ==> (s.is_user_compliant(env, user) <==> {
            &&& s.kyc.contains_key(user)
            &&& !s.kyc[user].lapsed(env.timestamp)
            &&& !s.blocked.contains(s.kyc[user].jurisdiction)
            &&& !s.frozen.contains(user)
            &&& s.record(user).status == ComplianceStatus::Verified
        }),
{
    assert(s.sound() ==> s.record_sound(user));
}

/// An attestation comes on file only by the word of a provider that is
/// authorised at the time, and not in a country that is blocked; it goes, or
/// makes room for another, only so or by the word of the provider that made it.
pub proof fn law_attestations_come_from_providers(
    s: ComplianceState,
    env: Context,
    call: Call,
    user: Address,
)
    ensures
        ({
            let t = s.after(env, call);
            t.kyc.contains_key(user) && !(s.kyc.contains_key(user) && s.kyc[user] == t.kyc[user])
                ==> {
                &&& s.verifiers.contains(t.kyc[user].verifier)
                &&& !s.blocked.contains(t.kyc[user].jurisdiction)
                &&& match call {
                    Call::Attest { verifier, subject, .. } => subject == user && verifier
                        == t.kyc[user].verifier,
                    Call::SubmitAttestation { subject, signer, .. } => subject == user
                        && s.signers.contains_key(signer) && s.signers[signer]
                        == t.kyc[user].verifier,
                    _ => false,
                }
            }
        }),
        s.kyc.contains_key(user) && !s.after(env, call).kyc.contains_key(user) ==> (
        call matches Call::Revoke { verifier, subject } && subject == user && verifier
            == s.kyc[user].verifier),
{
    match call {
        Call::Initialize { .. } => {},
        Call::SetVerifier { .. } => {},
        Call::AddVerifier { .. } => {},
        Call::RemoveVerifier { .. } => {},
        Call::Attest { .. } => {},
        Call::Revoke { .. } => {},
        Call::RegisterSigner { .. } => {},
        Call::SubmitAttestation { .. } => {},
        Call::SetAssetRule { .. } => {},
        Call::BlockJurisdiction { .. } => {},
        Call::UnblockJurisdiction { .. } => {},
        Call::BlockUsAndEu { .. } => {},
        Call::BlockSanctionedCountries { .. } => {},
        Call::FreezeAccount { .. } => {},
        Call::UnfreezeAccount { .. } => {},
        Call::SetWhitelist { .. } => {},
        Call::SuspendAccount { .. } => {},
        Call::UnsuspendAccount { .. } => {},
        Call::SanctionAccount { .. } => {},
        Call::AssertTransferAllowed { .. } => {},
    }
}

/// A whitelisted caller exempts no ordinary user, and no ordinary party to a
/// transfer.
pub proof fn law_callers_exempt_nobody(
    s: ComplianceState,
    env: Context,
    caller: Address,
    other: Address,
    from: Address,
    to: Address,
    asset: Symbol,
    amount: i128,
)
    requires
        !s.whitelist.contains(from),
    ensures
        s.assert_user_compliant(env, caller, from) == s.assert_user_compliant(env, other, from),
        s.assert_transfer_allowed(env, caller, from, to, asset, amount)
            == s.assert_transfer_allowed(env, other, from, to, asset, amount),
        s.assert_transfer_allowed(env, caller, to, from, asset, amount)
            == s.assert_transfer_allowed(env, other, to, from, asset, amount),
{
}

/// Setting the contract up blocks the United States, the European Union and
/// the countries under sanctions, so that nobody there can be attested.
pub proof fn law_restricted_from_the_start(
    s: ComplianceState,
    admin: Address,
    dao: Address,
    code: u32,
)
    requires
        model::us_or_eu(code) || model::sanctioned_codes().contains(code),
    ensures
        s.initialize(admin, dao) matches Ok((t, _)) ==> t.blocked.contains(code),
{
}

/// Nobody is attested in a country that is blocked, and nobody by a provider
/// that is not authorised.
pub proof fn law_blocked_are_not_attested(
    s: ComplianceState,
    env: Context,
    verifier: Address,
    subject: Address,
    signer: Address,
    jurisdiction: u32,
    expires_at: u64,
    metadata: Seq<u8>,
)
    ensures
        s.blocked.contains(jurisdiction) || !s.verifiers.contains(verifier) ==> s.attest(
            env,
            verifier,
            subject,
            jurisdiction,
            expires_at,
            metadata,
        ) is Err,
        s.blocked.contains(jurisdiction) || !s.signers.contains_key(signer)
            || !s.verifiers.contains(s.signers[signer]) ==> s.submit_attestation(
            env,
            subject,
            signer,
            jurisdiction,
            expires_at,
        ) is Err,
{
}

/// Whoever was attested may use the protocol, until the attestation expires,
/// unless the account is frozen, suspended or sanctioned.
pub proof fn law_attested_may_use(
    s: ComplianceState,
    env: Context,
    verifier: Address,
    subject: Address,
    jurisdiction: u32,
    expires_at: u64,
    metadata: Seq<u8>,
    later: Context,
)
    requires
        !s.frozen.contains(subject),
        s.record(subject).status != ComplianceStatus::Suspended,
        s.record(subject).status != ComplianceStatus::Sanctioned,
    ensures
        s.attest(env, verifier, subject, jurisdiction, expires_at, metadata) matches Ok((t, _))
            ==> (t.is_user_compliant(later, subject) <==> (expires_at == 0 || expires_at
            >= later.timestamp)),
{
}

/// A provider withdraws only what it attested itself, and then the user may
/// not use the protocol any more: no call but another attestation gives the
/// user that back.
pub proof fn law_revocation(
    s: ComplianceState,
    env: Context,
    verifier: Address,
    subject: Address,
    later: Context,
    call: Call,
    then: Context,
)
    requires
        s.sound(),
    ensures
        s.revoke(env, verifier, subject) matches Ok((t, effects)) ==> {
            &&& s.kyc[subject].verifier == verifier
            &&& effects[0] == Effect::RequireAuth(verifier)
            &&& !t.kyc.contains_key(subject)
            &&& !t.is_jurisdiction_ok(subject)
            &&& !t.is_user_compliant(later, subject)
        },
        !s.kyc.contains_key(subject) && !(call matches Call::Attest { subject: a, .. } && a
            == subject) && !(call matches Call::SubmitAttestation { subject: a, .. } && a
            == subject) ==> !s.after(later, call).kyc.contains_key(subject) && !s.after(
            later,
            call,
        ).is_user_compliant(then, subject),
{
    assert(s.record_sound(subject));
    law_attestations_come_from_providers(s, later, call, subject);
    law_stays_sound(s, later, call);
    assert(s.after(later, call).record_sound(subject));
}

/// A suspended account may not use the protocol, and stays suspended whatever
/// call comes, but for the admin's to unsuspend or to sanction it.
pub proof fn law_suspension_lasts(
    s: ComplianceState,
    env: Context,
    call: Call,
    account: Address,
    later: Context,
)
    requires
        s.record(account).status == ComplianceStatus::Suspended,
        !(call matches Call::UnsuspendAccount { admin, account: a } && a == account && s.admin
            == Some(admin)),
    ensures
        !s.is_user_compliant(later, account),
        !s.after(env, call).is_user_compliant(later, account),
        !(call matches Call::SanctionAccount { admin, account: a, .. } && a == account && s.admin
            == Some(admin)) ==> s.after(env, call).record(account).status
            == ComplianceStatus::Suspended,
{
    match call {
        Call::Initialize { .. } => {},
        Call::SetVerifier { .. } => {},
        Call::AddVerifier { .. } => {},
        Call::RemoveVerifier { .. } => {},
        Call::Attest { .. } => {},
        Call::Revoke { .. } => {},
        Call::RegisterSigner { .. } => {},
        Call::SubmitAttestation { .. } => {},
        Call::SetAssetRule { .. } => {},
        Call::BlockJurisdiction { .. } => {},
        Call::UnblockJurisdiction { .. } => {},
        Call::BlockUsAndEu { .. } => {},
        Call::BlockSanctionedCountries { .. } => {},
        Call::FreezeAccount { .. } => {},
        Call::UnfreezeAccount { .. } => {},
        Call::SetWhitelist { .. } => {},
        Call::SuspendAccount { .. } => {},
        Call::UnsuspendAccount { .. } => {},
        Call::SanctionAccount { .. } => {},
        Call::AssertTransferAllowed { .. } => {},
    }
}

/// Unsuspending gives back what the account was before, where it was
/// verified.
pub proof fn law_unsuspending_restores(
    s: ComplianceState,
    env: Context,
    admin: Address,
    account: Address,
    reason: Symbol,
    later: Context,
    then: Context,
)
    requires
        s.sound(),
        s.record(account).status == ComplianceStatus::Verified,
    ensures
        s.suspend_account(env, admin, account, reason) matches Ok((t, _)) ==> {
            &&& t.kyc == s.kyc
            &&& t.unsuspend_account(later, admin, account) matches Ok((u, _))
                && u.is_user_compliant(then, account) == s.is_user_compliant(then, account)
                && u.kyc == s.kyc
        },
{
    assert(s.record_sound(account));
}

/// A sanctioned account stays sanctioned, whatever call comes but the admin's
/// to suspend it instead.
pub proof fn law_sanction_lasts(s: ComplianceState, env: Context, call: Call, account: Address)
    requires
        s.record(account).status == ComplianceStatus::Sanctioned,
        !(call matches Call::SuspendAccount { account: a, .. } && a == account),
    ensures
        s.after(env, call).record(account).status == ComplianceStatus::Sanctioned,
        !s.is_user_compliant(env, account),
{
    match call {
        Call::Initialize { .. } => {},
        Call::SetVerifier { .. } => {},
        Call::AddVerifier { .. } => {},
        Call::RemoveVerifier { .. } => {},
        Call::Attest { .. } => {},
        Call::Revoke { .. } => {},
        Call::RegisterSigner { .. } => {},
        Call::SubmitAttestation { .. } => {},
        Call::SetAssetRule { .. } => {},
        Call::BlockJurisdiction { .. } => {},
        Call::UnblockJurisdiction { .. } => {},
        Call::BlockUsAndEu { .. } => {},
        Call::BlockSanctionedCountries { .. } => {},
        Call::FreezeAccount { .. } => {},
        Call::UnfreezeAccount { .. } => {},
        Call::SetWhitelist { .. } => {},
        Call::SuspendAccount { .. } => {},
        Call::UnsuspendAccount { .. } => {},
        Call::SanctionAccount { .. } => {},
        Call::AssertTransferAllowed { .. } => {},
    }
}

/// A sanction also freezes the account; unfreezing it does not lift the
/// sanction, and lets the account neither send nor receive.
pub proof fn law_sanction_freezes(
    s: ComplianceState,
    env: Context,
    admin: Address,
    account: Address,
    reason: Symbol,
    caller: Address,
    other: Address,
    asset: Symbol,
    amount: i128,
)
    requires
        !s.whitelist.contains(account),
    ensures
        s.sanction_account(env, admin, account, reason) matches Ok((t, _)) ==> {
            &&& t.frozen.contains(account)
            &&& error::refused(
                t.assert_user_compliant(env, caller, account),
                Error::AccountFrozen,
            )
            &&& (t.unfreeze_account(admin, account) matches Ok((u, _)) && error::refused(
                u.assert_user_compliant(env, caller, account),
                Error::AccountSanctioned,
            ) && u.assert_transfer_allowed(env, caller, account, other, asset, amount) is Err
                && u.assert_transfer_allowed(env, caller, other, account, asset, amount) is Err)
        },
{
}

/// What the getters say of a user does not tell the user's country: any other
/// country that is likewise blocked or not would give the same answers.
pub proof fn law_country_stays_private(
    s: ComplianceState,
    env: Context,
    caller: Address,
    user: Address,
    country: u32,
)
    requires
        s.sound(),
        s.kyc.contains_key(user),
        s.blocked.contains(country) == s.blocked.contains(s.records[user].jurisdiction),
    ensures
        ({
            let t = ComplianceState {
                records: s.records.insert(
                    user,
                    ComplianceRecord { jurisdiction: country, ..s.records[user] },
                ),
                kyc: s.kyc.insert(
                    user,
                    KycAttestationView { jurisdiction: country, ..s.kyc[user] },
                ),
                ..s
            };
            &&& t.get_compliance_status(user) == s.get_compliance_status(user)
            &&& t.is_user_compliant(env, user) == s.is_user_compliant(env, user)
            &&& t.is_jurisdiction_ok(user) == s.is_jurisdiction_ok(user)
            &&& t.assert_user_compliant(env, caller, user) == s.assert_user_compliant(
                env,
                caller,
                user,
            )
        }),
{
    assert(s.record_sound(user));
}

/// Blocking a country takes effect at once on everybody attested there, and
/// unblocking it lifts that.
pub proof fn law_blocklist_is_live(
    s: ComplianceState,
    env: Context,
    dao: Address,
    user: Address,
)
    requires
        s.dao == Some(dao),
        s.is_user_compliant(env, user),
    ensures
        ({
            let country = s.record(user).jurisdiction;
            let t = s.block_jurisdiction(dao, country)->Ok_0.0;
            &&& s.block_jurisdiction(dao, country) is Ok
            &&& !t.is_user_compliant(env, user)
            &&& !t.get_compliance_status(user).jurisdiction_allowed
            &&& t.unblock_jurisdiction(dao, country) is Ok
            &&& t.unblock_jurisdiction(dao, country)->Ok_0.0.is_user_compliant(env, user)
        }),
{
}

/// Of an address that nobody ever attested no jurisdiction is allowed.
pub proof fn law_unknown_is_not_allowed(s: ComplianceState, user: Address)
    requires
        s.provider_count(user) == 0,
    ensures
        !s.get_compliance_status(user).jurisdiction_allowed,
{
}

/// A transfer under an enabled rule passes only where neither party is frozen,
/// sanctioned or lapsed, both are attested, and neither lives in a country that the
/// rule blocks or that is blocked for all.
pub proof fn law_both_parties_checked(
    s: ComplianceState,
    env: Context,
    caller: Address,
    from: Address,
    to: Address,
    asset: Symbol,
    amount: i128,
)
    requires
        !s.whitelist.contains(from) || !s.whitelist.contains(to),
        s.asset_rules.contains_key(asset),
        s.asset_rules[asset].enabled,
    ensures
        s.assert_transfer_allowed(env, caller, from, to, asset, amount) is Ok ==> {
            &&& !s.frozen.contains(from) && !s.frozen.contains(to)
            &&& s.record(from).status != ComplianceStatus::Sanctioned
            &&& s.record(to).status != ComplianceStatus::Sanctioned
            &&& s.kyc.contains_key(from) && s.kyc.contains_key(to)
            &&& !s.kyc[from].lapsed(env.timestamp) && !s.kyc[to].lapsed(env.timestamp)
            &&& !s.blocked.contains(s.kyc[from].jurisdiction)
            &&& !s.blocked.contains(s.kyc[to].jurisdiction)
            &&& !s.asset_rules[asset].blocked_jurisdictions.contains(s.kyc[from].jurisdiction)
            &&& !s.asset_rules[asset].blocked_jurisdictions.contains(s.kyc[to].jurisdiction)
            &&& s.is_transfer_allowed(env, from, to, asset)
        },
{
}

/// What an address moves in a day stays within the limit of the rule, every
/// transfer is counted, and the next day starts from zero.
pub proof fn law_daily_limit(
    s: ComplianceState,
    env: Context,
    caller: Address,
    from: Address,
    to: Address,
    asset: Symbol,
    amount: i128,
    tomorrow: Context,
)
    requires
        !s.whitelist.contains(from),
        s.asset_rules.contains_key(asset),
        s.asset_rules[asset].enabled,
        model::day_start(tomorrow.timestamp) != model::day_start(env.timestamp),
    ensures
        s.assert_transfer_allowed(env, caller, from, to, asset, amount) matches Ok((t, _, _)) ==> {
            &&& t.volume(env, from) == s.volume(env, from) + amount
            &&& t.volume(env, from) <= ComplianceState::limit(s.asset_rules[asset])
            &&& t.volume(tomorrow, from) == 0
        },
{
}

/// A transfer of the threshold or more is flagged where the rule asks
/// for it, under the next number; no other is.
pub proof fn law_travel_rule(
    s: ComplianceState,
    env: Context,
    caller: Address,
    from: Address,
    to: Address,
    asset: Symbol,
    amount: i128,
)
    requires
        !s.whitelist.contains(from),
        s.asset_rules.contains_key(asset),
        s.asset_rules[asset].enabled,
    ensures
        s.assert_transfer_allowed(env, caller, from, to, asset, amount) matches Ok(
            (t, _, effects),
        ) ==> {
            let flagged = s.asset_rules[asset].require_travel_rule && amount
                >= TRAVEL_RULE_THRESHOLD;
            &&& effects.len() == if flagged {
                1int
            } else {
                0
            }
            &&& t.travel_rule_count == s.travel_rule_count + effects.len()
        },
{
}

/// Setting the canonical provider authorises it, ends the authorisation of
/// the one before and touches no other.
pub proof fn law_canonical_provider(
    s: ComplianceState,
    dao: Address,
    verifier: Address,
    other: Address,
)
    ensures
        s.set_verifier(dao, verifier) matches Ok((t, _)) ==> {
            &&& t.verifier == Some(verifier)
            &&& t.verifiers.contains(verifier)
            &&& s.verifier == Some(other) && other != verifier ==> !t.verifiers.contains(other)
            &&& s.verifier != Some(other) && other != verifier ==> t.verifiers.contains(other)
                == s.verifiers.contains(other)
        },
{
}

/// The providers, the countries and the rules change only on the word of the
/// DAO; frozen and exempt accounts only on that of the admin.
pub proof fn law_authority(s: ComplianceState, env: Context, call: Call)
    requires
        s.admin is Some,
    ensures
        ({
            let t = s.after(env, call);
            &&& t.admin == s.admin && t.dao == s.dao
            &&& t.verifiers != s.verifiers ==> match call {
                Call::SetVerifier { dao, .. } => Some(dao) == s.dao,
                Call::AddVerifier { dao, .. } => Some(dao) == s.dao,
                Call::RemoveVerifier { dao, .. } => Some(dao) == s.dao,
                _ => false,
            }
            &&& t.blocked != s.blocked ==> match call {
                Call::BlockJurisdiction { dao, .. } => Some(dao) == s.dao,
                Call::UnblockJurisdiction { dao, .. } => Some(dao) == s.dao,
                Call::BlockUsAndEu { dao } => Some(dao) == s.dao,
                Call::BlockSanctionedCountries { dao } => Some(dao) == s.dao,
                _ => false,
            }
            &&& t.frozen != s.frozen ==> match call {
                Call::FreezeAccount { admin, .. } => Some(admin) == s.admin,
                Call::UnfreezeAccount { admin, .. } => Some(admin) == s.admin,
                Call::SanctionAccount { admin, .. } => Some(admin) == s.admin,
                _ => false,
            }
            &&& t.whitelist != s.whitelist ==> (call matches Call::SetWhitelist { admin, .. }
                && Some(admin) == s.admin)
        }),
{
    match call {
        Call::Initialize { .. } => {},
        Call::SetVerifier { .. } => {},
        Call::AddVerifier { .. } => {},
        Call::RemoveVerifier { .. } => {},
        Call::Attest { .. } => {},
        Call::Revoke { .. } => {},
        Call::RegisterSigner { .. } => {},
        Call::SubmitAttestation { .. } => {},
        Call::SetAssetRule { .. } => {},
        Call::BlockJurisdiction { .. } => {},
        Call::UnblockJurisdiction { .. } => {},
        Call::BlockUsAndEu { .. } => {},
        Call::BlockSanctionedCountries { .. } => {},
        Call::FreezeAccount { .. } => {},
        Call::UnfreezeAccount { .. } => {},
        Call::SetWhitelist { .. } => {},
        Call::SuspendAccount { .. } => {},
        Call::UnsuspendAccount { .. } => {},
        Call::SanctionAccount { .. } => {},
        Call::AssertTransferAllowed { .. } => {},
    }
}

/// An upgrade is authorised by the DAO that is stored, and keeps what is
/// stored.
pub proof fn law_upgrade(s: ComplianceState, new_wasm_hash: WasmHash)
    ensures
        s.upgrade(new_wasm_hash) matches Ok((t, effects)) ==> t == s && effects[0]
            == Effect::RequireAuth(s.dao->0) && s.dao is Some,
{
}

} // verus!
