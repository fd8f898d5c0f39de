//! What the calls on the registry let pass and what they leave, told from the
//! records that it stores.
use crate::arith;
use crate::compliance_registry::model;
use crate::compliance_registry::model::{AssetRuleView, ComplianceState, KycAttestationView};
use crate::compliance_registry::{
    AttestEvent, BlockJurisdictionEvent, ComplianceRecord, ComplianceStatus, ComplianceView,
    DailyVolume, Effect, FreezeAccountEvent, ProviderRegisteredEvent, RevokeEvent,
    StatusChangeEvent, SubmitAttestEvent, TravelRuleEvent, VerifierChangedEvent,
};
use crate::error::Error;
use crate::types::{Address, Context, Symbol, WasmHash};
use vstd::prelude::*;

verus! {

// ── Verifiers ─────────────────────────────────────────────────────

/// A verifier has a place on the list.
pub open spec fn on_the_list(s: ComplianceState, verifier: Address) -> bool {
    exists|i: u32|
        i < s.verifier_count && #[trigger] s.verifier_list.contains_key(i) && s.verifier_list[i]
            == verifier
}

proof fn lemma_on_the_list(s: ComplianceState, verifier: Address)
    ensures
        on_the_list(s, verifier) == s.is_listed(verifier),
{
    if on_the_list(s, verifier) {
        let i = choose|i: u32|
            i < s.verifier_count && #[trigger] s.verifier_list.contains_key(i) && s.verifier_list[i]
                == verifier;
        assert(s.stands_at(i, verifier));
    }
    if s.is_listed(verifier) {
        let i = choose|i: u32| s.stands_at(i, verifier);
        assert(s.verifier_list.contains_key(i));
    }
}

/// The DAO lets an address attest. An address that never had a place on the list
/// gets the next one; one that had a place keeps it.
pub proof fn law_add_verifier(s: ComplianceState, dao: Address, verifier: Address)
    ensures
        s.add_verifier(dao, verifier) is Ok <==> {
            &&& s.dao == Some(dao)
            &&& on_the_list(s, verifier) || s.verifier_count < 0xffff_ffff
        },
        s.add_verifier(dao, verifier) matches Ok((t, effects)) ==> {
            &&& effects == seq![Effect::RequireAuth(dao)]
            &&& on_the_list(s, verifier) ==> t == (ComplianceState {
                verifiers: s.verifiers.insert(verifier),
                ..s
            })
            &&& !on_the_list(s, verifier) ==> t == (ComplianceState {
                verifiers: s.verifiers.insert(verifier),
                verifier_list: s.verifier_list.insert(s.verifier_count, verifier),
                verifier_count: (s.verifier_count + 1) as u32,
                ..s
            })
        },
        s.dao is Some && s.dao != Some(dao) ==> s.add_verifier(dao, verifier) == Err::<
            (ComplianceState, Seq<Effect>),
            Error,
        >(Error::DaoOnly),
{
    lemma_on_the_list(s, verifier);
}

/// The DAO replaces the main verifier: the one before may attest no more, and
/// the new one may as if it were added.
pub proof fn law_set_verifier(s: ComplianceState, dao: Address, verifier: Address)
    ensures
        ({
            let rest = if s.verifier is Some && s.verifier != Some(verifier) {
                s.verifiers.remove(s.verifier->0)
            } else {
                s.verifiers
            };
            let added = (ComplianceState { verifiers: rest, ..s }).add_verifier(dao, verifier);
            let step = s.set_verifier(dao, verifier);
            &&& step is Ok <==> added is Ok
            &&& step matches Ok((t, effects)) ==> {
                &&& t == (ComplianceState { verifier: Some(verifier), ..added->Ok_0.0 })
                &&& effects == seq![
                    Effect::RequireAuth(dao),
                    Effect::VerifierChanged(VerifierChangedEvent { dao, verifier }),
                ]
            }
        }),
{
    let rest = if s.verifier is Some && s.verifier != Some(verifier) {
        s.verifiers.remove(s.verifier->0)
    } else {
        s.verifiers
    };
    let r = ComplianceState { verifiers: rest, ..s };
    assert(r == s.without_replaced(verifier));
}

/// The DAO takes the right to attest away; the place on the list stays.
pub proof fn law_remove_verifier(s: ComplianceState, dao: Address, verifier: Address)
    ensures
        s.remove_verifier(dao, verifier) is Ok <==> s.dao == Some(dao),
        s.remove_verifier(dao, verifier) matches Ok((t, effects)) ==> {
            &&& t == (ComplianceState { verifiers: s.verifiers.remove(verifier), ..s })
            &&& effects == seq![Effect::RequireAuth(dao)]
        },
{
}

/// What is listed is, place by place, whoever stands there and may attest.
pub proof fn law_verifier_list(s: ComplianceState, n: u32)
    ensures
        s.listed(0).len() == 0,
        n > 0 ==> {
            let place = (n - 1) as u32;
            let before = s.listed(place as nat);
            &&& s.verifier_list.contains_key(place) && s.verifiers.contains(s.verifier_list[place])
                ==> s.listed(n as nat) == before.push(s.verifier_list[place])
            &&& !s.verifier_list.contains_key(place) || !s.verifiers.contains(
                s.verifier_list[place],
            ) ==> s.listed(n as nat) == before
        },
{
}

// ── Attestations ──────────────────────────────────────────────────

/// How an address stands: as its record says, and unknown where there is none.
pub open spec fn standing(s: ComplianceState, a: Address) -> ComplianceRecord {
    if s.records.contains_key(a) {
        s.records[a]
    } else {
        ComplianceRecord {
            status: ComplianceStatus::Unknown,
            jurisdiction: 0,
            expires_at: 0,
            provider: a,
            updated_at: 0,
            reason: Symbol { head: 0x6e_6f_6e_65, tail: 0 },
        }
    }
}

/// How many providers attested an address.
pub open spec fn attesters(s: ComplianceState, a: Address) -> int {
    if s.provider_counts.contains_key(a) {
        s.provider_counts[a] as int
    } else {
        0
    }
}

/// A provider is among those who attested an address.
pub open spec fn attested_by(s: ComplianceState, a: Address, provider: Address) -> bool {
    exists|i: u32|
        i < attesters(s, a) && #[trigger] s.providers.contains_key((a, i)) && s.providers[(a, i)]
            == provider
}

/// The registry after a provider attested an address: the attestation replaces
/// the one before, the record says verified unless the account is suspended or
/// sanctioned, and the provider is on the address's list once.
pub open spec fn attested(
    s: ComplianceState,
    t: ComplianceState,
    env: Context,
    provider: Address,
    subject: Address,
    jurisdiction: u32,
    expires_at: u64,
    metadata: Seq<u8>,
) -> bool {
    let before = standing(s, subject);
    let held = before.status == ComplianceStatus::Suspended || before.status
        == ComplianceStatus::Sanctioned;
    let count = attesters(s, subject);
    &&& t.kyc == s.kyc.insert(
        subject,
        KycAttestationView {
            address: subject,
            verifier: provider,
            jurisdiction,
            issued_at: env.timestamp,
            expires_at,
            metadata,
        },
    )
    &&& t.records == s.records.insert(
        subject,
        ComplianceRecord {
            status: if held {
                before.status
            } else {
                ComplianceStatus::Verified
            },
            jurisdiction,
            expires_at,
            provider,
            updated_at: env.timestamp,
            reason: if held {
                before.reason
            } else {
                Symbol { head: 0x61_74_74_65_73_74, tail: 0 }
            },
        },
    )
    &&& attested_by(s, subject, provider) ==> t.providers == s.providers && t.provider_counts
        == s.provider_counts
    &&& !attested_by(s, subject, provider) ==> t.providers == s.providers.insert(
        (subject, count as u32),
        provider,
    ) && t.provider_counts == s.provider_counts.insert(subject, (count + 1) as u32)
    &&& t == (ComplianceState {
        kyc: t.kyc,
        records: t.records,
        providers: t.providers,
        provider_counts: t.provider_counts,
        ..s
    })
}

proof fn lemma_attested_by(s: ComplianceState, subject: Address, provider: Address)
    ensures
        attested_by(s, subject, provider) == s.has_provider(subject, provider),
        attesters(s, subject) == s.provider_count(subject),
{
}

/// A verifier attests an address of a country that is not blocked.
pub proof fn law_attest(
    s: ComplianceState,
    env: Context,
    verifier: Address,
    subject: Address,
    jurisdiction: u32,
    expires_at: u64,
    metadata: Seq<u8>,
)
    ensures
        ({
            let step = s.attest(env, verifier, subject, jurisdiction, expires_at, metadata);
            &&& step is Ok <==> {
                &&& s.verifiers.contains(verifier)
                &&& !s.blocked.contains(jurisdiction)
                &&& attested_by(s, subject, verifier) || attesters(s, subject) < 0xffff_ffff
            }
            &&& step matches Ok((t, effects)) ==> {
                &&& attested(
                    s,
                    t,
                    env,
                    verifier,
                    subject,
                    jurisdiction,
                    expires_at,
                    metadata,
                )
                &&& effects == seq![
                    Effect::RequireAuth(verifier),
                    Effect::Attest(AttestEvent { verifier, subject, jurisdiction_allowed: true }),
                ]
            }
            &&& step matches Err(e) ==> e == (if !s.verifiers.contains(verifier) {
                Error::NotAuthorisedVerifier
            } else if s.blocked.contains(jurisdiction) {
                Error::JurisdictionBlocked
            } else {
                Error::Arithmetic
            })
        }),
{
    lemma_attest(s, env, verifier, subject, jurisdiction, expires_at, metadata);
}

proof fn lemma_attest(
    s: ComplianceState,
    env: Context,
    provider: Address,
    subject: Address,
    jurisdiction: u32,
    expires_at: u64,
    metadata: Seq<u8>,
)
    ensures
        ({
            let step = s.with_attestation(
                env,
                provider,
                subject,
                jurisdiction,
                expires_at,
                metadata,
            );
            &&& step is Ok <==> attested_by(s, subject, provider) || attesters(s, subject)
                < 0xffff_ffff
            &&& step matches Ok(t) ==> attested(
                s,
                t,
                env,
                provider,
                subject,
                jurisdiction,
                expires_at,
                metadata,
            )
            &&& step matches Err(e) ==> e == Error::Arithmetic
        }),
{
    lemma_attested_by(s, subject, provider);
    let noted = ComplianceState {
        kyc: s.kyc.insert(
            subject,
            KycAttestationView {
                address: subject,
                verifier: provider,
                jurisdiction,
                issued_at: env.timestamp,
                expires_at,
                metadata,
            },
        ),
        records: s.records.insert(
            subject,
            s.record(subject).attested(provider, jurisdiction, expires_at, env.timestamp),
        ),
        ..s
    };
    assert(noted.provider_count(subject) == s.provider_count(subject));
    if s.has_provider(subject, provider) {
        let i = choose|i: u32|
            i < s.provider_count(subject) && #[trigger] s.providers.contains_key((subject, i))
                && s.providers[(subject, i)] == provider;
        assert(noted.providers.contains_key((subject, i)));
        assert(noted.has_provider(subject, provider));
    }
    if noted.has_provider(subject, provider) {
        let i = choose|i: u32|
            i < noted.provider_count(subject) && #[trigger] noted.providers.contains_key(
                (subject, i),
            ) && noted.providers[(subject, i)] == provider;
        assert(s.providers.contains_key((subject, i)));
        assert(s.has_provider(subject, provider));
    }
}

/// A user hands in what a registered signer of a verifier signed: it counts as
/// that verifier's attestation, on the word of both.
pub proof fn law_submit_attestation(
    s: ComplianceState,
    env: Context,
    subject: Address,
    signer: Address,
    jurisdiction: u32,
    expires_at: u64,
)
    ensures
        ({
            let provider = s.signers[signer];
            let step = s.submit_attestation(env, subject, signer, jurisdiction, expires_at);
            &&& step is Ok <==> {
                &&& s.signers.contains_key(signer)
                &&& s.verifiers.contains(provider)
                &&& !s.blocked.contains(jurisdiction)
                &&& attested_by(s, subject, provider) || attesters(s, subject) < 0xffff_ffff
            }
            &&& step matches Ok((t, effects)) ==> {
                &&& attested(
                    s,
                    t,
                    env,
                    provider,
                    subject,
                    jurisdiction,
                    expires_at,
                    Seq::empty(),
                )
                &&& effects == seq![
                    Effect::RequireAuth(subject),
                    Effect::RequireAuth(provider),
                    Effect::SubmitAttest(
                        SubmitAttestEvent { subject, provider, jurisdiction_allowed: true },
                    ),
                ]
            }
            &&& step matches Err(e) ==> e == (if !s.signers.contains_key(signer) {
                Error::SignerNotRegistered
            } else if !s.verifiers.contains(provider) {
                Error::ProviderNoLongerAuthorised
            } else if s.blocked.contains(jurisdiction) {
                Error::JurisdictionBlocked
            } else {
                Error::Arithmetic
            })
        }),
{
    lemma_attest(s, env, s.signers[signer], subject, jurisdiction, expires_at, Seq::empty());
}

/// A verifier takes back its own attestation and no other's. The record turns
/// unknown where it rests on that verifier, unless the account is suspended or
/// sanctioned.
pub proof fn law_revoke(s: ComplianceState, env: Context, verifier: Address, subject: Address)
    ensures
        ({
            let rec = standing(s, subject);
            let step = s.revoke(env, verifier, subject);
            &&& step is Ok <==> s.kyc.contains_key(subject) && s.kyc[subject].verifier == verifier
            &&& step matches Ok((t, effects)) ==> {
                &&& t == (ComplianceState {
                    kyc: s.kyc.remove(subject),
                    records: if rec.provider == verifier && rec.status
                        != ComplianceStatus::Suspended && rec.status
                        != ComplianceStatus::Sanctioned {
                        s.records.insert(
                            subject,
                            ComplianceRecord {
                                status: ComplianceStatus::Unknown,
                                updated_at: env.timestamp,
                                reason: Symbol { head: 0x72_65_76_6f_6b_65_64, tail: 0 },
                                ..rec
                            },
                        )
                    } else {
                        s.records
                    },
                    ..s
                })
                &&& effects == seq![
                    Effect::RequireAuth(verifier),
                    Effect::Revoke(RevokeEvent { verifier, subject }),
                ]
            }
            &&& step matches Err(e) ==> e == (if !s.kyc.contains_key(subject) {
                Error::NoAttestation
            } else {
                Error::NotOwnAttestation
            })
        }),
{
}

/// A verifier names a key that signs for it.
pub proof fn law_register_signer(s: ComplianceState, provider: Address, signer: Address)
    ensures
        s.register_signer(provider, signer) is Ok <==> s.verifiers.contains(provider),
        s.register_signer(provider, signer) matches Ok((t, effects)) ==> {
            &&& t == (ComplianceState { signers: s.signers.insert(signer, provider), ..s })
            &&& effects == seq![
                Effect::RequireAuth(provider),
                Effect::ProviderRegistered(ProviderRegisteredEvent { provider, signer }),
            ]
        },
        s.register_signer(provider, signer) matches Err(e) ==> e == Error::ProviderNotVerifier,
{
}

/// The providers of an address are read in the order in which they attested it.
pub proof fn law_provider_list(s: ComplianceState, subject: Address, n: u32)
    ensures
        s.providers_of(subject, 0).len() == 0,
        n > 0 ==> {
            let key = (subject, (n - 1) as u32);
            let before = s.providers_of(subject, (n - 1) as nat);
            &&& s.providers.contains_key(key) ==> s.providers_of(subject, n as nat) == before.push(
                s.providers[key],
            )
            &&& !s.providers.contains_key(key) ==> s.providers_of(subject, n as nat) == before
        },
        s.provider_count(subject) == attesters(s, subject),
{
}

// ── Countries and rules ───────────────────────────────────────────

/// The United States and the member states of the European Union.
pub open spec fn western(c: u32) -> bool {
    ||| c == 840
    ||| c == 40 || c == 56 || c == 100 || c == 191 || c == 196 || c == 203 || c == 208
    ||| c == 233 || c == 246 || c == 250 || c == 276 || c == 300 || c == 348 || c == 372
    ||| c == 380 || c == 428 || c == 440 || c == 442 || c == 470 || c == 528 || c == 616
    ||| c == 620 || c == 642 || c == 703 || c == 705 || c == 724 || c == 752
}

/// The countries under sanctions or of high risk.
pub open spec fn risky(c: u32) -> bool {
    ||| c == 192 || c == 364 || c == 408 || c == 760 || c == 643
    ||| c == 112 || c == 104 || c == 862 || c == 729 || c == 728
}

proof fn lemma_codes(c: u32)
    ensures
        model::us_or_eu(c) == western(c),
        model::sanctioned_codes().contains(c) == risky(c),
{
    let eu = model::eu_codes();
    let bad = model::sanctioned_codes();
    assert(eu[0] == 40 && eu[1] == 56 && eu[2] == 100 && eu[3] == 191 && eu[4] == 196);
    assert(eu[5] == 203 && eu[6] == 208 && eu[7] == 233 && eu[8] == 246 && eu[9] == 250);
    assert(eu[10] == 276 && eu[11] == 300 && eu[12] == 348 && eu[13] == 372 && eu[14] == 380);
    assert(eu[15] == 428 && eu[16] == 440 && eu[17] == 442 && eu[18] == 470 && eu[19] == 528);
    assert(eu[20] == 616 && eu[21] == 620 && eu[22] == 642 && eu[23] == 703 && eu[24] == 705);
    assert(eu[25] == 724 && eu[26] == 752 && eu.len() == 27);
    assert(bad[0] == 192 && bad[1] == 364 && bad[2] == 408 && bad[3] == 760 && bad[4] == 643);
    assert(bad[5] == 112 && bad[6] == 104 && bad[7] == 862 && bad[8] == 729 && bad[9] == 728);
    assert(bad.len() == 10);
}

/// Which countries are which can be asked.
pub proof fn law_countries(c: u32)
    ensures
        model::us_or_eu(c) <==> western(c),
        model::sanctioned_codes().contains(c) <==> risky(c),
{
    lemma_codes(c);
}

/// The DAO blocks a country and lets it be again, and blocks the two lists of
/// countries whole. What else is blocked stays so.
pub proof fn law_blocking(s: ComplianceState, dao: Address, country: u32, other: u32)
    ensures
        s.block_jurisdiction(dao, country) is Ok <==> s.dao == Some(dao),
        s.block_jurisdiction(dao, country) matches Ok((t, effects)) ==> {
            &&& t == (ComplianceState { blocked: s.blocked.insert(country), ..s })
            &&& effects == seq![
                Effect::RequireAuth(dao),
                Effect::BlockJurisdiction(
                    BlockJurisdictionEvent {
                        action: Symbol { head: 0x6a_75_72, tail: 0 },
                        country_code: country,
                    },
                ),
            ]
        },
        s.unblock_jurisdiction(dao, country) is Ok <==> s.dao == Some(dao),
        s.unblock_jurisdiction(dao, country) matches Ok((t, effects)) ==> {
            &&& t == (ComplianceState { blocked: s.blocked.remove(country), ..s })
            &&& effects == seq![Effect::RequireAuth(dao)]
        },
        s.block_us_and_eu(dao) is Ok <==> s.dao == Some(dao),
        s.block_us_and_eu(dao) matches Ok((t, effects)) ==> {
            &&& t == (ComplianceState { blocked: t.blocked, ..s })
            &&& t.blocked.contains(other) <==> s.blocked.contains(other) || western(other)
            &&& effects == seq![Effect::RequireAuth(dao)]
        },
        s.block_sanctioned_countries(dao) is Ok <==> s.dao == Some(dao),
        s.block_sanctioned_countries(dao) matches Ok((t, effects)) ==> {
            &&& t == (ComplianceState { blocked: t.blocked, ..s })
            &&& t.blocked.contains(other) <==> s.blocked.contains(other) || risky(other)
            &&& effects == seq![Effect::RequireAuth(dao)]
        },
{
    lemma_codes(other);
}

/// The DAO sets the rule of an asset, which is in force from then on.
pub proof fn law_asset_rule(
    s: ComplianceState,
    dao: Address,
    asset: Symbol,
    blocked: Seq<u32>,
    limit: i128,
    travel_rule: bool,
)
    ensures
        s.set_asset_rule(dao, asset, blocked, limit, travel_rule) is Ok <==> s.dao == Some(dao),
        s.set_asset_rule(dao, asset, blocked, limit, travel_rule) matches Ok((t, effects)) ==> {
            &&& t == (ComplianceState {
                asset_rules: s.asset_rules.insert(
                    asset,
                    AssetRuleView {
                        asset,
                        blocked_jurisdictions: blocked,
                        daily_limit_usd: limit,
                        require_travel_rule: travel_rule,
                        enabled: true,
                    },
                ),
                ..s
            })
            &&& effects == seq![Effect::RequireAuth(dao)]
        },
{
}

// ── Accounts ──────────────────────────────────────────────────────

/// The admin freezes accounts and frees them, and names the contracts that are
/// let through; each call changes the one set that it is about.
pub proof fn law_freezing(
    s: ComplianceState,
    admin: Address,
    account: Address,
    reason: Symbol,
    whitelisted: bool,
)
    ensures
        s.freeze_account(admin, account, reason) is Ok <==> s.admin == Some(admin),
        s.freeze_account(admin, account, reason) matches Ok((t, effects)) ==> {
            &&& t == (ComplianceState { frozen: s.frozen.insert(account), ..s })
            &&& effects == seq![
                Effect::RequireAuth(admin),
                Effect::FreezeAccount(FreezeAccountEvent { account, reason }),
            ]
        },
        s.unfreeze_account(admin, account) is Ok <==> s.admin == Some(admin),
        s.unfreeze_account(admin, account) matches Ok((t, effects)) ==> {
            &&& t == (ComplianceState { frozen: s.frozen.remove(account), ..s })
            &&& effects == seq![
                Effect::RequireAuth(admin),
                Effect::FreezeAccount(
                    FreezeAccountEvent {
                        account,
                        reason: Symbol { head: 0x75_6e_66_72_7a, tail: 0 },
                    },
                ),
            ]
        },
        s.set_whitelist(admin, account, whitelisted) is Ok <==> s.admin == Some(admin),
        s.set_whitelist(admin, account, whitelisted) matches Ok((t, effects)) ==> {
            &&& effects == seq![Effect::RequireAuth(admin)]
            &&& whitelisted ==> t == (ComplianceState { whitelist: s.whitelist.insert(account), ..s })
            &&& !whitelisted ==> t == (ComplianceState {
                whitelist: s.whitelist.remove(account),
                ..s
            })
        },
{
}

/// The number by which events name a status.
pub open spec fn number(status: ComplianceStatus) -> u32 {
    if status == ComplianceStatus::Unknown {
        0
    } else if status == ComplianceStatus::Pending {
        1
    } else if status == ComplianceStatus::Verified {
        2
    } else if status == ComplianceStatus::Suspended {
        3
    } else if status == ComplianceStatus::Sanctioned {
        4
    } else {
        5
    }
}

/// What the admin's call on an account leaves: the status and the reason are
/// new, the country, the provider and the term stay.
pub open spec fn restated(
    s: ComplianceState,
    t: ComplianceState,
    effects: Seq<Effect>,
    env: Context,
    admin: Address,
    account: Address,
    status: ComplianceStatus,
    reason: Symbol,
) -> bool {
    let rec = standing(s, account);
    &&& t.records == s.records.insert(
        account,
        ComplianceRecord { status, updated_at: env.timestamp, reason, ..rec },
    )
    &&& effects == seq![
        Effect::RequireAuth(admin),
        Effect::StatusChange(
            StatusChangeEvent {
                account,
                old_status: number(rec.status),
                new_status: number(status),
                reason,
            },
        ),
    ]
}

/// The admin suspends accounts, lifts suspensions and sanctions accounts. Who is
/// no longer suspended is verified again with an attestation on file, and
/// unknown without. A sanction freezes the account too.
pub proof fn law_statuses(
    s: ComplianceState,
    env: Context,
    admin: Address,
    account: Address,
    reason: Symbol,
)
    ensures
        s.suspend_account(env, admin, account, reason) is Ok <==> s.admin == Some(admin),
        s.suspend_account(env, admin, account, reason) matches Ok((t, effects)) ==> {
            &&& restated(
                s,
                t,
                effects,
                env,
                admin,
                account,
                ComplianceStatus::Suspended,
                reason,
            )
            &&& t == (ComplianceState { records: t.records, ..s })
        },
        s.unsuspend_account(env, admin, account) is Ok <==> s.admin == Some(admin) && standing(
            s,
            account,
        ).status == ComplianceStatus::Suspended,
        s.unsuspend_account(env, admin, account) matches Ok((t, effects)) ==> {
            &&& restated(
                s,
                t,
                effects,
                env,
                admin,
                account,
                if s.kyc.contains_key(account) {
                    ComplianceStatus::Verified
                } else {
                    ComplianceStatus::Unknown
                },
                Symbol { head: 0x75_6e_73_75_73_70_65_6e_64, tail: 0 },
            )
            &&& t == (ComplianceState { records: t.records, ..s })
        },
        s.admin == Some(admin) && standing(s, account).status != ComplianceStatus::Suspended
            ==> s.unsuspend_account(env, admin, account) == Err::<
            (ComplianceState, Seq<Effect>),
            Error,
        >(Error::NotSuspended),
        s.sanction_account(env, admin, account, reason) is Ok <==> s.admin == Some(admin),
        s.sanction_account(env, admin, account, reason) matches Ok((t, effects)) ==> {
            &&& restated(
                s,
                t,
                effects,
                env,
                admin,
                account,
                ComplianceStatus::Sanctioned,
                reason,
            )
            &&& t == (ComplianceState {
                records: t.records,
                frozen: s.frozen.insert(account),
                ..s
            })
        },
{
}

// ── Checks ────────────────────────────────────────────────────────

/// What an address moved on the day that began at a time.
pub open spec fn moved_today(s: ComplianceState, a: Address, day: int) -> int {
    if s.daily_volumes.contains_key(a) && s.daily_volumes[a].date_ts == day {
        s.daily_volumes[a].volume as int
    } else {
        0
    }
}

/// An attestation is on file and its term is over.
pub open spec fn over(s: ComplianceState, env: Context, a: Address) -> bool {
    &&& s.kyc.contains_key(a)
    &&& s.kyc[a].expires_at != 0
    &&& s.kyc[a].expires_at < env.timestamp
}

/// An attestation is on file, from a country that neither the asset nor the
/// registry blocks.
pub open spec fn welcome(s: ComplianceState, rule: AssetRuleView, a: Address) -> bool {
    &&& s.kyc.contains_key(a)
    &&& !rule.blocked_jurisdictions.contains(s.kyc[a].jurisdiction)
    &&& !s.blocked.contains(s.kyc[a].jurisdiction)
}

/// A transfer passes between contracts that are let through. Else neither party
/// is frozen, sanctioned or past its term; and where the asset has a rule in
/// force, both are attested from countries that are welcome, and the sender
/// stays within the day's limit, which counts what it moved since midnight. A
/// large transfer under the travel rule is reported under the next number.
pub proof fn law_transfers(
    s: ComplianceState,
    env: Context,
    caller: Address,
    from: Address,
    to: Address,
    asset: Symbol,
    amount: i128,
    days: int,
)
    requires
        arith::rounded_down(days, env.timestamp as int, 86_400),
    ensures
        ({
            let rule = s.asset_rules[asset];
            let day = days * 86_400;
            let through = s.whitelist.contains(caller) && s.whitelist.contains(from)
                && s.whitelist.contains(to);
            let ruled = !through && s.asset_rules.contains_key(asset) && rule.enabled;
            let volume = moved_today(s, from, day) + amount;
            let reported = ruled && rule.require_travel_rule && amount >= 10_000_000_000;
            let step = s.assert_transfer_allowed(env, caller, from, to, asset, amount);
            &&& step is Ok <==> {
                &&& !through ==> {
                    &&& !s.frozen.contains(from)
                    &&& !s.frozen.contains(to)
                    &&& standing(s, from).status != ComplianceStatus::Sanctioned
                    &&& standing(s, to).status != ComplianceStatus::Sanctioned
                    &&& !over(s, env, from)
                    &&& !over(s, env, to)
                }
                &&& ruled ==> {
                    &&& welcome(s, rule, from)
                    &&& welcome(s, rule, to)
                    &&& arith::fits(volume)
                    &&& rule.daily_limit_usd > 0 ==> volume <= rule.daily_limit_usd
                }
                &&& reported ==> s.travel_rule_count < 0xffff_ffff_ffff_ffff
            }
            &&& step matches Ok((t, allowed, effects)) ==> {
                &&& allowed
                &&& t == (ComplianceState {
                    daily_volumes: if ruled {
                        s.daily_volumes.insert(
                            from,
                            DailyVolume { date_ts: day as u64, volume: volume as i128 },
                        )
                    } else {
                        s.daily_volumes
                    },
                    travel_rule_count: if reported {
                        (s.travel_rule_count + 1) as u64
                    } else {
                        s.travel_rule_count
                    },
                    ..s
                })
                &&& reported ==> effects == seq![
                    Effect::TravelRule(
                        TravelRuleEvent {
                            from,
                            to,
                            asset,
                            amount,
                            sequence: s.travel_rule_count,
                        },
                    ),
                ]
                &&& !reported ==> effects.len() == 0
            }
        }),
{
    lemma_day(env.timestamp, days);
}

proof fn lemma_day(timestamp: u64, days: int)
    requires
        arith::rounded_down(days, timestamp as int, 86_400),
    ensures
        model::day_start(timestamp) == days * 86_400,
        0 <= days * 86_400 <= timestamp,
{
    arith::lemma_rounded_down(days, timestamp as int, 86_400);
}

/// Why a transfer is refused: the first of the reasons, the sender's before the
/// recipient's.
pub proof fn law_refused_transfers(
    s: ComplianceState,
    env: Context,
    caller: Address,
    from: Address,
    to: Address,
    asset: Symbol,
    amount: i128,
)
    ensures
        ({
            let rule = s.asset_rules[asset];
            let (a, b) = (s.kyc[from], s.kyc[to]);
            s.assert_transfer_allowed(env, caller, from, to, asset, amount) matches Err(e) ==> {
                ||| s.frozen.contains(from) && e == Error::SenderFrozen
                ||| !s.frozen.contains(from) && {
                    ||| s.frozen.contains(to) && e == Error::RecipientFrozen
                    ||| !s.frozen.contains(to) && {
                        let x = standing(s, from).status == ComplianceStatus::Sanctioned;
                        let y = standing(s, to).status == ComplianceStatus::Sanctioned;
                        ||| x && e == Error::SenderSanctioned
                        ||| !x && y && e == Error::RecipientSanctioned
                        ||| !x && !y && over(s, env, from) && e == Error::SenderExpired
                        ||| !x && !y && !over(s, env, from) && over(s, env, to) && e
                            == Error::RecipientExpired
                        ||| !x && !y && !over(s, env, from) && !over(s, env, to) && e == (
                        if !s.kyc.contains_key(from) {
                            Error::SenderKycRequired
                        } else if !s.kyc.contains_key(to) {
                            Error::RecipientKycRequired
                        } else if rule.blocked_jurisdictions.contains(a.jurisdiction) {
                            Error::SenderJurisdictionBlockedForAsset
                        } else if s.blocked.contains(a.jurisdiction) {
                            Error::SenderJurisdictionBlocked
                        } else if rule.blocked_jurisdictions.contains(b.jurisdiction) {
                            Error::RecipientJurisdictionBlockedForAsset
                        } else if s.blocked.contains(b.jurisdiction) {
                            Error::RecipientJurisdictionBlocked
                        } else if arith::fits(s.volume(env, from) + amount) && s.volume(env, from)
                            + amount > rule.daily_limit_usd && rule.daily_limit_usd > 0 {
                            Error::DailyLimitExceeded
                        } else {
                            Error::Arithmetic
                        })
                    }
                }
            }
        }),
{
}

/// A user may act where the calling contract and the user are both let through,
/// or where the user is verified, not frozen, within the term, and of a country
/// that is not blocked. A refusal says why.
pub proof fn law_users(s: ComplianceState, env: Context, caller: Address, user: Address)
    ensures
        ({
            let rec = standing(s, user);
            let ended = rec.expires_at != 0 && rec.expires_at < env.timestamp;
            let fine = !s.frozen.contains(user) && rec.status == ComplianceStatus::Verified
                && !ended && !s.blocked.contains(rec.jurisdiction);
            &&& s.is_user_compliant(env, user) <==> fine
            &&& s.assert_user_compliant(env, caller, user) is Ok <==> {
                ||| s.whitelist.contains(caller) && s.whitelist.contains(user)
                ||| fine
            }
            &&& s.assert_user_compliant(env, caller, user) matches Ok(b) ==> b
            &&& s.assert_user_compliant(env, caller, user) matches Err(e) ==> e == (
            if s.frozen.contains(user) {
                Error::AccountFrozen
            } else if rec.status == ComplianceStatus::Unknown {
                Error::KycRequired
            } else if rec.status == ComplianceStatus::Pending {
                Error::KycPending
            } else if rec.status == ComplianceStatus::Suspended {
                Error::AccountSuspended
            } else if rec.status == ComplianceStatus::Sanctioned {
                Error::AccountSanctioned
            } else if rec.status == ComplianceStatus::Expired || ended {
                Error::KycExpired
            } else {
                Error::UnavailableInJurisdiction
            })
        }),
{
}

/// The DAO and the admin are asked who they are before anything else.
pub proof fn law_refused_callers(
    s: ComplianceState,
    env: Context,
    caller: Address,
    account: Address,
    country: u32,
    asset: Symbol,
    blocked: Seq<u32>,
    limit: i128,
    flag: bool,
)
    ensures
        s.dao is Some && s.dao != Some(caller) ==> {
            &&& s.set_verifier(caller, account) matches Err(e) && e == Error::DaoOnly
            &&& s.add_verifier(caller, account) matches Err(e) && e == Error::DaoOnly
            &&& s.remove_verifier(caller, account) matches Err(e) && e == Error::DaoOnly
            &&& s.set_asset_rule(caller, asset, blocked, limit, flag) matches Err(e) && e
                == Error::DaoOnly
            &&& s.block_jurisdiction(caller, country) matches Err(e) && e == Error::DaoOnly
            &&& s.unblock_jurisdiction(caller, country) matches Err(e) && e == Error::DaoOnly
            &&& s.block_us_and_eu(caller) matches Err(e) && e == Error::DaoOnly
            &&& s.block_sanctioned_countries(caller) matches Err(e) && e == Error::DaoOnly
        },
        s.admin is Some && s.admin != Some(caller) ==> {
            &&& s.freeze_account(caller, account, asset) matches Err(e) && e == Error::AdminOnly
            &&& s.unfreeze_account(caller, account) matches Err(e) && e == Error::AdminOnly
            &&& s.set_whitelist(caller, account, flag) matches Err(e) && e == Error::AdminOnly
            &&& s.suspend_account(env, caller, account, asset) matches Err(e) && e
                == Error::AdminOnly
            &&& s.unsuspend_account(env, caller, account) matches Err(e) && e == Error::AdminOnly
            &&& s.sanction_account(env, caller, account, asset) matches Err(e) && e
                == Error::AdminOnly
        },
        s.admin is Some ==> (s.initialize(caller, account) matches Err(e) && e
            == Error::AlreadyInitialised),
{
}

// ── Setting up and reading ────────────────────────────────────────

/// Setting up stores the admin and the DAO and blocks both lists of countries;
/// it works once. The stored DAO lets the code be replaced.
pub proof fn law_setup(
    s: ComplianceState,
    admin: Address,
    dao: Address,
    country: u32,
    hash: WasmHash,
)
    ensures
        s.initialize(admin, dao) is Ok <==> s.admin is None,
        s.initialize(admin, dao) matches Ok((t, effects)) ==> {
            &&& effects == seq![Effect::RequireAuth(admin)]
            &&& t == (ComplianceState {
                admin: Some(admin),
                dao: Some(dao),
                verifier_count: 0,
                travel_rule_count: 0,
                blocked: t.blocked,
                ..s
            })
            &&& t.blocked.contains(country) <==> s.blocked.contains(country) || western(country)
                || risky(country)
        },
        s.upgrade(hash) is Ok <==> s.dao is Some,
        s.upgrade(hash) matches Ok((t, effects)) ==> t == s && effects == seq![
            Effect::RequireAuth(s.dao->0),
            Effect::UpdateWasm(hash),
        ],
        ({
            let b = ComplianceState::blank();
            &&& b.admin is None && b.dao is None && b.verifier is None
            &&& b.verifier_count == 0 && b.travel_rule_count == 0
            &&& b.kyc == Map::<Address, KycAttestationView>::empty()
            &&& b.records == Map::<Address, ComplianceRecord>::empty()
            &&& b.daily_volumes == Map::<Address, DailyVolume>::empty()
            &&& b.asset_rules == Map::<Symbol, AssetRuleView>::empty()
            &&& b.verifiers == Set::<Address>::empty()
            &&& b.verifier_list == Map::<u32, Address>::empty()
            &&& b.blocked == Set::<u32>::empty()
            &&& b.frozen == Set::<Address>::empty()
            &&& b.whitelist == Set::<Address>::empty()
            &&& b.providers == Map::<(Address, u32), Address>::empty()
            &&& b.provider_counts == Map::<Address, u32>::empty()
            &&& b.signers == Map::<Address, Address>::empty()
        }),
{
    lemma_codes(country);
}

/// What is read is what is stored; a country is never told, only whether it is
/// let in, and what was moved counts for the day that it was moved on.
pub proof fn law_reads(
    s: ComplianceState,
    env: Context,
    user: Address,
    other: Address,
    asset: Symbol,
    status: ComplianceStatus,
    days: int,
)
    requires
        arith::rounded_down(days, env.timestamp as int, 86_400),
    ensures
        s.volume(env, user) == moved_today(s, user, days * 86_400),
        s.record(user) == standing(s, user),
        model::code(status) == number(status),
        s.is_jurisdiction_ok(user) <==> s.kyc.contains_key(user) && !s.blocked.contains(
            s.kyc[user].jurisdiction,
        ),
        s.is_transfer_allowed(env, user, other, asset) <==> {
            &&& !s.frozen.contains(user)
            &&& !s.frozen.contains(other)
            &&& !over(s, env, user)
            &&& s.asset_rules.contains_key(asset) && s.asset_rules[asset].enabled
                ==> s.kyc.contains_key(user)
        },
        ({
            let rec = standing(s, user);
            s.get_compliance_status(user) == (ComplianceView {
                status: rec.status,
                jurisdiction_allowed: attesters(s, user) > 0 && rec.status
                    != ComplianceStatus::Unknown && !s.blocked.contains(rec.jurisdiction),
                expires_at: rec.expires_at,
                provider: rec.provider,
                updated_at: rec.updated_at,
                reason: rec.reason,
            })
        }),
{
    lemma_day(env.timestamp, days);
}

} // verus!
