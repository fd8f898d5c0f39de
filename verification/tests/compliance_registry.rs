use uruk_protocol::compliance_registry::{
    AttestEvent, BlockJurisdictionEvent, ComplianceRegistry, ComplianceStatus, ComplianceView,
    Effect, FreezeAccountEvent, ProviderRegisteredEvent, RevokeEvent, StatusChangeEvent,
    SubmitAttestEvent, TravelRuleEvent,
};
use uruk_protocol::error::Error;
use uruk_protocol::types::{Address, Context, Symbol, WasmHash};

const SWITZERLAND: u32 = 756;
const GERMANY: u32 = 276;
const CUBA: u32 = 192;
const JAPAN: u32 = 392;

fn addr(n: u128) -> Address {
    Address { contract: false, hi: 0, lo: n }
}

fn sym(text: &str) -> Symbol {
    Symbol::new(text.as_bytes()).unwrap()
}

fn at(timestamp: u64) -> Context {
    Context { contract: addr(100), timestamp, sequence: 1 }
}

fn admin() -> Address {
    addr(1)
}

fn dao() -> Address {
    addr(2)
}

fn kyc() -> Address {
    addr(3)
}

fn alice() -> Address {
    addr(4)
}

fn bob() -> Address {
    addr(5)
}

fn engine() -> Address {
    addr(6)
}

fn setup() -> ComplianceRegistry {
    let mut c = ComplianceRegistry::new();
    c.initialize(admin(), dao()).unwrap();
    c.add_verifier(dao(), kyc()).unwrap();
    c
}

/// Alice and Bob are verified, Alice until time 1000 and Bob for good.
fn verified() -> ComplianceRegistry {
    let mut c = setup();
    c.attest(&at(10), kyc(), alice(), SWITZERLAND, 1000, vec![1, 2, 3]).unwrap();
    c.attest(&at(10), kyc(), bob(), JAPAN, 0, vec![]).unwrap();
    c
}

#[test]
fn compliance_starts_once_with_blocks_in_place() {
    let mut c = ComplianceRegistry::new();
    assert_eq!(c.add_verifier(dao(), kyc()), Err(Error::NotInitialised));
    assert!(c.initialize(admin(), dao()).is_ok());
    assert_eq!(c.initialize(admin(), dao()), Err(Error::AlreadyInitialised));
    assert!(c.is_jurisdiction_blocked(840));
    assert!(c.is_jurisdiction_blocked(GERMANY));
    assert!(c.is_jurisdiction_blocked(CUBA));
    assert!(!c.is_jurisdiction_blocked(SWITZERLAND));
    assert!(ComplianceRegistry::is_us_or_eu(GERMANY));
    assert!(!ComplianceRegistry::is_us_or_eu(SWITZERLAND));
    assert!(ComplianceRegistry::is_sanctioned_country(CUBA));
    assert!(!ComplianceRegistry::is_sanctioned_country(GERMANY));
}

#[test]
fn verifiers_are_the_daos() {
    let mut c = setup();
    assert_eq!(c.add_verifier(admin(), bob()), Err(Error::DaoOnly));
    c.add_verifier(dao(), bob()).unwrap();
    assert!(c.is_verifier(bob()));
    assert_eq!(c.list_verifiers(), vec![kyc(), bob()]);
    c.remove_verifier(dao(), kyc()).unwrap();
    assert!(!c.is_verifier(kyc()));
    assert_eq!(c.list_verifiers(), vec![bob()]);
    assert_eq!(
        c.attest(&at(0), kyc(), alice(), SWITZERLAND, 0, vec![]),
        Err(Error::NotAuthorisedVerifier)
    );
    c.set_verifier(dao(), addr(50)).unwrap();
    assert_eq!(c.get_verifier(), Some(addr(50)));
    assert!(c.is_verifier(addr(50)));
}

#[test]
fn an_attestation_lets_a_user_in() {
    let mut c = setup();
    assert_eq!(
        c.assert_user_compliant(&at(5), engine(), alice()),
        Err(Error::KycRequired)
    );
    assert_eq!(
        c.attest(&at(10), kyc(), alice(), SWITZERLAND, 1000, vec![1]),
        Ok(vec![
            Effect::RequireAuth(kyc()),
            Effect::Attest(AttestEvent {
                verifier: kyc(),
                subject: alice(),
                jurisdiction_allowed: true,
            }),
        ])
    );
    assert_eq!(c.assert_user_compliant(&at(1000), engine(), alice()), Ok(true));
    assert!(c.is_user_compliant(&at(1000), alice()));
    assert!(c.is_verified(&at(1000), alice()));
    assert!(c.is_jurisdiction_ok(alice()));
    assert_eq!(
        c.get_compliance_status(alice()),
        ComplianceView {
            status: ComplianceStatus::Verified,
            jurisdiction_allowed: true,
            expires_at: 1000,
            provider: kyc(),
            updated_at: 10,
            reason: sym("attest"),
        }
    );
    assert_eq!(c.get_providers(alice()), vec![kyc()]);
    // It expires.
    assert_eq!(
        c.assert_user_compliant(&at(1001), engine(), alice()),
        Err(Error::KycExpired)
    );
    assert!(!c.is_user_compliant(&at(1001), alice()));
}

#[test]
fn blocked_jurisdictions_are_not_attested() {
    let mut c = setup();
    assert_eq!(
        c.attest(&at(10), kyc(), alice(), GERMANY, 0, vec![]),
        Err(Error::JurisdictionBlocked)
    );
    c.unblock_jurisdiction(dao(), GERMANY).unwrap();
    assert!(c.attest(&at(10), kyc(), alice(), GERMANY, 0, vec![]).is_ok());
    assert_eq!(
        c.block_jurisdiction(dao(), GERMANY).unwrap().len(),
        2
    );
    assert_eq!(
        c.assert_user_compliant(&at(10), engine(), alice()),
        Err(Error::UnavailableInJurisdiction)
    );
    assert!(!c.get_compliance_status(alice()).jurisdiction_allowed);
    assert!(!c.is_jurisdiction_ok(alice()));
    c.unblock_jurisdiction(dao(), GERMANY).unwrap();
    assert!(c.get_compliance_status(alice()).jurisdiction_allowed);
    c.block_us_and_eu(dao()).unwrap();
    assert!(c.is_jurisdiction_blocked(GERMANY));
    c.unblock_jurisdiction(dao(), CUBA).unwrap();
    c.block_sanctioned_countries(dao()).unwrap();
    assert!(c.is_jurisdiction_blocked(CUBA));
    assert_eq!(c.block_jurisdiction(admin(), 1), Err(Error::DaoOnly));
    let blocked = c.block_jurisdiction(dao(), 1).unwrap();
    match blocked[1] {
        Effect::BlockJurisdiction(BlockJurisdictionEvent { country_code, .. }) => {
            assert_eq!(country_code, 1)
        }
        _ => panic!("the block was not announced"),
    }
}

#[test]
fn an_unknown_user_is_nowhere_allowed() {
    let c = setup();
    let view = c.get_compliance_status(alice());
    assert_eq!(view.status, ComplianceStatus::Unknown);
    assert!(!view.jurisdiction_allowed);
    assert_eq!(view.reason, sym("none"));
    assert_eq!(c.get_provider_count(alice()), 0);
}

#[test]
fn attestations_are_revoked_by_their_verifier() {
    let mut c = verified();
    c.add_verifier(dao(), addr(60)).unwrap();
    assert_eq!(c.revoke(&at(20), addr(60), alice()), Err(Error::NotOwnAttestation));
    assert_eq!(c.revoke(&at(20), kyc(), addr(70)), Err(Error::NoAttestation));
    assert_eq!(
        c.revoke(&at(20), kyc(), alice()),
        Ok(vec![
            Effect::RequireAuth(kyc()),
            Effect::Revoke(RevokeEvent { verifier: kyc(), subject: alice() }),
        ])
    );
    assert_eq!(
        c.assert_user_compliant(&at(20), engine(), alice()),
        Err(Error::KycRequired)
    );
    assert_eq!(c.get_compliance_status(alice()).reason, sym("revoked"));
    // The list of providers stays.
    assert_eq!(c.get_provider_count(alice()), 1);
}

#[test]
fn providers_are_listed_once() {
    let mut c = verified();
    c.add_verifier(dao(), addr(60)).unwrap();
    c.attest(&at(20), addr(60), alice(), SWITZERLAND, 0, vec![]).unwrap();
    c.attest(&at(30), kyc(), alice(), SWITZERLAND, 0, vec![]).unwrap();
    assert_eq!(c.get_providers(alice()), vec![kyc(), addr(60)]);
    assert_eq!(c.get_provider_count(alice()), 2);
}

#[test]
fn users_submit_what_a_provider_signed() {
    let mut c = setup();
    let key = addr(80);
    assert_eq!(
        c.submit_attestation(&at(10), alice(), key, SWITZERLAND, 0),
        Err(Error::SignerNotRegistered)
    );
    assert_eq!(c.register_signer(bob(), key), Err(Error::ProviderNotVerifier));
    assert_eq!(
        c.register_signer(kyc(), key),
        Ok(vec![
            Effect::RequireAuth(kyc()),
            Effect::ProviderRegistered(ProviderRegisteredEvent { provider: kyc(), signer: key }),
        ])
    );
    assert_eq!(c.get_provider_for_signer(key), Some(kyc()));
    assert_eq!(
        c.submit_attestation(&at(10), alice(), key, GERMANY, 0),
        Err(Error::JurisdictionBlocked)
    );
    assert_eq!(
        c.submit_attestation(&at(10), alice(), key, SWITZERLAND, 0),
        Ok(vec![
            Effect::RequireAuth(alice()),
            Effect::RequireAuth(kyc()),
            Effect::SubmitAttest(SubmitAttestEvent {
                subject: alice(),
                provider: kyc(),
                jurisdiction_allowed: true,
            }),
        ])
    );
    assert!(c.is_user_compliant(&at(10), alice()));
    c.remove_verifier(dao(), kyc()).unwrap();
    assert_eq!(
        c.submit_attestation(&at(10), bob(), key, SWITZERLAND, 0),
        Err(Error::ProviderNoLongerAuthorised)
    );
}

#[test]
fn a_suspension_lasts_until_it_is_lifted() {
    let mut c = verified();
    assert_eq!(
        c.suspend_account(&at(20), bob(), alice(), sym("review")),
        Err(Error::AdminOnly)
    );
    assert_eq!(c.unsuspend_account(&at(20), admin(), alice()), Err(Error::NotSuspended));
    assert_eq!(
        c.suspend_account(&at(20), admin(), alice(), sym("review")),
        Ok(vec![
            Effect::RequireAuth(admin()),
            Effect::StatusChange(StatusChangeEvent {
                account: alice(),
                old_status: ComplianceStatus::Verified.code(),
                new_status: ComplianceStatus::Suspended.code(),
                reason: sym("review"),
            }),
        ])
    );
    assert_eq!(
        c.assert_user_compliant(&at(20), engine(), alice()),
        Err(Error::AccountSuspended)
    );
    // A new attestation does not lift it.
    c.attest(&at(25), kyc(), alice(), SWITZERLAND, 0, vec![]).unwrap();
    assert_eq!(
        c.assert_user_compliant(&at(25), engine(), alice()),
        Err(Error::AccountSuspended)
    );
    c.unsuspend_account(&at(30), admin(), alice()).unwrap();
    assert_eq!(c.assert_user_compliant(&at(30), engine(), alice()), Ok(true));
}

#[test]
fn a_sanction_lasts() {
    let mut c = verified();
    c.sanction_account(&at(20), admin(), alice(), sym("ofac")).unwrap();
    assert!(c.is_frozen(alice()));
    assert_eq!(
        c.assert_user_compliant(&at(20), engine(), alice()),
        Err(Error::AccountFrozen)
    );
    c.unfreeze_account(admin(), alice()).unwrap();
    assert_eq!(
        c.assert_user_compliant(&at(20), engine(), alice()),
        Err(Error::AccountSanctioned)
    );
    c.attest(&at(25), kyc(), alice(), SWITZERLAND, 0, vec![]).unwrap();
    assert_eq!(
        c.get_compliance_status(alice()).status,
        ComplianceStatus::Sanctioned
    );
    c.revoke(&at(26), kyc(), alice()).unwrap();
    assert_eq!(
        c.get_compliance_status(alice()).status,
        ComplianceStatus::Sanctioned
    );
}

#[test]
fn status_codes() {
    assert_eq!(ComplianceStatus::Unknown.code(), 0);
    assert_eq!(ComplianceStatus::Pending.code(), 1);
    assert_eq!(ComplianceStatus::Verified.code(), 2);
    assert_eq!(ComplianceStatus::Suspended.code(), 3);
    assert_eq!(ComplianceStatus::Sanctioned.code(), 4);
    assert_eq!(ComplianceStatus::Expired.code(), 5);
}

#[test]
fn frozen_accounts_do_not_transfer() {
    let mut c = verified();
    assert_eq!(
        c.freeze_account(admin(), alice(), sym("order")),
        Ok(vec![
            Effect::RequireAuth(admin()),
            Effect::FreezeAccount(FreezeAccountEvent { account: alice(), reason: sym("order") }),
        ])
    );
    let asset = sym("sBTC");
    assert_eq!(
        c.assert_transfer_allowed(&at(20), engine(), alice(), bob(), asset, 1),
        Err(Error::SenderFrozen)
    );
    assert_eq!(
        c.assert_transfer_allowed(&at(20), engine(), bob(), alice(), asset, 1),
        Err(Error::RecipientFrozen)
    );
    assert!(!c.is_transfer_allowed(&at(20), alice(), bob(), asset, 1));
    assert!(!c.is_transfer_allowed(&at(20), bob(), alice(), asset, 1));
}

#[test]
fn expired_parties_do_not_transfer() {
    let mut c = verified();
    let asset = sym("sBTC");
    assert_eq!(
        c.assert_transfer_allowed(&at(1001), engine(), alice(), bob(), asset, 1),
        Err(Error::SenderExpired)
    );
    assert_eq!(
        c.assert_transfer_allowed(&at(1001), engine(), bob(), alice(), asset, 1),
        Err(Error::RecipientExpired)
    );
    // Without a rule nothing else is asked.
    assert_eq!(
        c.assert_transfer_allowed(&at(20), engine(), addr(70), addr(71), asset, 1),
        Ok((true, vec![]))
    );
}

#[test]
fn a_rule_asks_for_both_parties() {
    let mut c = verified();
    let asset = sym("sBTC");
    c.set_asset_rule(dao(), asset, vec![JAPAN], 0, false).unwrap();
    assert_eq!(
        c.assert_transfer_allowed(&at(20), engine(), addr(70), alice(), asset, 1),
        Err(Error::SenderKycRequired)
    );
    assert_eq!(
        c.assert_transfer_allowed(&at(20), engine(), alice(), addr(70), asset, 1),
        Err(Error::RecipientKycRequired)
    );
    assert_eq!(
        c.assert_transfer_allowed(&at(20), engine(), bob(), alice(), asset, 1),
        Err(Error::SenderJurisdictionBlockedForAsset)
    );
    assert_eq!(
        c.assert_transfer_allowed(&at(20), engine(), alice(), bob(), asset, 1),
        Err(Error::RecipientJurisdictionBlockedForAsset)
    );
    c.block_jurisdiction(dao(), SWITZERLAND).unwrap();
    assert_eq!(
        c.assert_transfer_allowed(&at(20), engine(), alice(), alice(), asset, 1),
        Err(Error::SenderJurisdictionBlocked)
    );
    assert!(!c.is_transfer_allowed(&at(20), addr(70), alice(), asset, 1));
    let rule = c.get_asset_rule(asset).unwrap();
    assert_eq!(rule.blocked_jurisdictions, vec![JAPAN]);
    assert!(rule.enabled);
    assert!(c.get_asset_rule(sym("none")).is_none());
}

#[test]
fn the_daily_limit_starts_anew_each_day() {
    let mut c = verified();
    let asset = sym("sBTC");
    c.set_asset_rule(dao(), asset, vec![], 100, false).unwrap();
    assert_eq!(
        c.assert_transfer_allowed(&at(20), engine(), alice(), bob(), asset, 60),
        Ok((true, vec![]))
    );
    assert_eq!(c.get_daily_volume(&at(20), alice()), 60);
    assert_eq!(
        c.assert_transfer_allowed(&at(20), engine(), alice(), bob(), asset, 41),
        Err(Error::DailyLimitExceeded)
    );
    assert!(c.assert_transfer_allowed(&at(20), engine(), alice(), bob(), asset, 40).is_ok());
    assert!(c.assert_transfer_allowed(&at(20), engine(), bob(), alice(), asset, 100).is_ok());
    assert_eq!(c.get_daily_volume(&at(86_400), bob()), 0);
    assert!(c.assert_transfer_allowed(&at(86_400), engine(), bob(), bob(), asset, 100).is_ok());
}

#[test]
fn large_transfers_are_flagged() {
    let mut c = verified();
    let asset = sym("sBTC");
    c.set_asset_rule(dao(), asset, vec![], 0, true).unwrap();
    assert_eq!(
        c.assert_transfer_allowed(&at(20), engine(), alice(), bob(), asset, 9_999_999_999),
        Ok((true, vec![]))
    );
    assert_eq!(
        c.assert_transfer_allowed(&at(20), engine(), alice(), bob(), asset, 10_000_000_000),
        Ok((
            true,
            vec![Effect::TravelRule(TravelRuleEvent {
                from: alice(),
                to: bob(),
                asset,
                amount: 10_000_000_000,
                sequence: 0,
            })]
        ))
    );
    assert_eq!(c.get_travel_rule_count(), 1);
}

#[test]
fn a_whitelisted_caller_exempts_nobody() {
    let mut c = setup();
    c.set_whitelist(admin(), engine(), true).unwrap();
    assert_eq!(
        c.assert_user_compliant(&at(5), engine(), alice()),
        Err(Error::KycRequired)
    );
    c.set_whitelist(admin(), addr(90), true).unwrap();
    assert_eq!(c.assert_user_compliant(&at(5), engine(), addr(90)), Ok(true));
    c.freeze_account(admin(), addr(90), sym("x")).unwrap();
    assert_eq!(
        c.assert_transfer_allowed(&at(5), engine(), addr(90), addr(90), sym("a"), 5),
        Ok((true, vec![]))
    );
    c.set_whitelist(admin(), engine(), false).unwrap();
    assert_eq!(
        c.assert_transfer_allowed(&at(5), engine(), addr(90), addr(90), sym("a"), 5),
        Err(Error::SenderFrozen)
    );
}

#[test]
fn the_dao_replaces_the_compliance_registry() {
    let mut c = setup();
    let hash = WasmHash { hi: 1, lo: 2 };
    assert_eq!(
        c.upgrade(alice(), hash),
        Ok(vec![Effect::RequireAuth(dao()), Effect::UpdateWasm(hash)])
    );
}

#[test]
fn a_user_under_review_waits() {
    let mut c = verified();
    let mut record = *c.records.get(&alice()).unwrap();
    record.status = ComplianceStatus::Pending;
    c.records.insert(alice(), record);
    assert_eq!(c.assert_user_compliant(&at(20), engine(), alice()), Err(Error::KycPending));
    assert!(!c.is_user_compliant(&at(20), alice()));
}

#[test]
fn a_verifier_is_listed_once() {
    let mut c = setup();
    c.add_verifier(dao(), bob()).unwrap();
    c.remove_verifier(dao(), kyc()).unwrap();
    c.add_verifier(dao(), kyc()).unwrap();
    c.add_verifier(dao(), kyc()).unwrap();
    assert_eq!(c.list_verifiers(), vec![kyc(), bob()]);
    assert_eq!(c.verifier_count, 2);
    c.set_verifier(dao(), bob()).unwrap();
    c.set_verifier(dao(), alice()).unwrap();
    c.set_verifier(dao(), bob()).unwrap();
    assert_eq!(c.list_verifiers(), vec![kyc(), bob()]);
}

#[test]
fn nobody_sends_to_a_blocked_country() {
    let mut c = verified();
    let asset = sym("sBTC");
    c.set_asset_rule(dao(), asset, vec![], 0, true).unwrap();
    c.block_jurisdiction(dao(), JAPAN).unwrap();
    assert_eq!(
        c.assert_transfer_allowed(&at(20), engine(), alice(), bob(), asset, 10_000_000_000),
        Err(Error::RecipientJurisdictionBlocked)
    );
    assert_eq!(
        c.assert_transfer_allowed(&at(20), engine(), bob(), alice(), asset, 10_000_000_000),
        Err(Error::SenderJurisdictionBlocked)
    );
    assert_eq!(c.get_travel_rule_count(), 0);
    assert_eq!(c.get_daily_volume(&at(20), alice()), 0);
}

#[test]
fn a_suspension_outlives_the_attestation() {
    let mut c = verified();
    c.suspend_account(&at(20), admin(), alice(), sym("review")).unwrap();
    c.revoke(&at(21), kyc(), alice()).unwrap();
    c.attest(&at(22), kyc(), alice(), SWITZERLAND, 0, vec![]).unwrap();
    assert_eq!(
        c.assert_user_compliant(&at(23), engine(), alice()),
        Err(Error::AccountSuspended)
    );
    assert_eq!(c.get_compliance_status(alice()).status, ComplianceStatus::Suspended);
}

#[test]
fn nothing_but_an_attestation_verifies() {
    let mut c = verified();
    c.suspend_account(&at(20), admin(), alice(), sym("review")).unwrap();
    c.revoke(&at(21), kyc(), alice()).unwrap();
    assert_eq!(
        c.unsuspend_account(&at(22), admin(), alice()).unwrap()[1],
        Effect::StatusChange(StatusChangeEvent {
            account: alice(),
            old_status: 3,
            new_status: 0,
            reason: sym("unsuspend"),
        })
    );
    assert_eq!(
        c.assert_user_compliant(&at(23), engine(), alice()),
        Err(Error::KycRequired)
    );
    c.attest(&at(24), kyc(), alice(), SWITZERLAND, 0, vec![]).unwrap();
    assert!(c.is_user_compliant(&at(25), alice()));
    // One who was never attested does not become verified by a suspension.
    c.suspend_account(&at(26), admin(), addr(77), sym("review")).unwrap();
    c.unsuspend_account(&at(27), admin(), addr(77)).unwrap();
    assert!(!c.is_user_compliant(&at(28), addr(77)));
    assert_eq!(c.get_compliance_status(addr(77)).status, ComplianceStatus::Unknown);
}

#[test]
fn the_sanctioned_do_not_transfer() {
    let mut c = verified();
    c.sanction_account(&at(20), admin(), alice(), sym("ofac")).unwrap();
    c.unfreeze_account(admin(), alice()).unwrap();
    assert_eq!(
        c.assert_transfer_allowed(&at(21), engine(), alice(), bob(), sym("X"), 1),
        Err(Error::SenderSanctioned)
    );
    assert_eq!(
        c.assert_transfer_allowed(&at(21), engine(), bob(), alice(), sym("X"), 1),
        Err(Error::RecipientSanctioned)
    );
}
