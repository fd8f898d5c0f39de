//! Who may use the protocol, and which transfers are allowed.
//!
//! Authorised providers attest users. A user is verified or is not; there are
//! no levels. Which country a user lives in is stored with the attestation
//! and handed out by no getter: those only say whether it is allowed.
pub mod laws;
pub mod model;
pub mod outcomes;

use crate::arith;
use crate::compliance_registry::model::{AssetRuleView, ComplianceState, KycAttestationView};
use crate::error::Error;
use crate::table;
use crate::table::Table;
use crate::types::{Address, Context, Symbol, WasmHash};
use vstd::prelude::*;

verus! {

/// What a user may move in a day where the rule of an asset sets no limit.
pub const DEFAULT_DAILY_LIMIT: i128 = i128::MAX;

/// From this value on, a transfer is flagged for the Travel Rule: a thousand
/// dollars, with seven decimals.
pub const TRAVEL_RULE_THRESHOLD: i128 = 10_000_000_000;

/// A day, in seconds.
pub const DAY: u64 = 86_400;

/// The numeric country code of the United States.
pub const US_COUNTRY_CODE: u32 = 840;

/// `attest`.
pub const ATTEST: u128 = 0x61_74_74_65_73_74;

/// `revoked`.
pub const REVOKED: u128 = 0x72_65_76_6f_6b_65_64;

/// `unfrz`.
pub const UNFRZ: u128 = 0x75_6e_66_72_7a;

/// `unsuspend`.
pub const UNSUSPEND: u128 = 0x75_6e_73_75_73_70_65_6e_64;

/// `none`.
pub const NONE: u128 = 0x6e_6f_6e_65;

/// `jur`.
pub const JUR: u128 = 0x6a_75_72;

/// How an address stands.
#[derive(Clone, Copy, PartialEq, Eq, Structural, Debug)]
pub enum ComplianceStatus {
    /// No provider ever attested the address.
    Unknown,
    /// The provider is still checking.
    Pending,
    /// May use the protocol within the limits of the jurisdiction.
    Verified,
    /// May not use the protocol until unsuspended.
    Suspended,
    /// May never use the protocol.
    Sanctioned,
    /// The attestation must be renewed.
    Expired,
}

/// What a provider said of an address. No getter hands this out, for it holds
/// the jurisdiction.
#[derive(Clone, PartialEq, Eq, Debug)]
pub struct KycAttestation {
    pub address: Address,
    pub verifier: Address,
    /// The numeric country code.
    pub jurisdiction: u32,
    pub issued_at: u64,
    /// Zero where it never expires.
    pub expires_at: u64,
    /// A hash of the documents.
    pub metadata: Vec<u8>,
}

impl View for KycAttestation {
    type V = KycAttestationView;

    open spec fn view(&self) -> KycAttestationView {
        KycAttestationView {
            address: self.address,
            verifier: self.verifier,
            jurisdiction: self.jurisdiction,
            issued_at: self.issued_at,
            expires_at: self.expires_at,
            metadata: self.metadata@,
        }
    }
}

/// How an address stands and why. No getter hands this out, for it holds the
/// jurisdiction.
#[derive(Clone, Copy, PartialEq, Eq, Structural, Debug)]
pub struct ComplianceRecord {
    pub status: ComplianceStatus,
    /// The numeric country code.
    pub jurisdiction: u32,
    pub expires_at: u64,
    pub provider: Address,
    pub updated_at: u64,
    pub reason: Symbol,
}

/// How an address stands and why, without the jurisdiction.
#[derive(Clone, Copy, PartialEq, Eq, Structural, Debug)]
pub struct ComplianceView {
    pub status: ComplianceStatus,
    /// The jurisdiction is known and not blocked now.
    pub jurisdiction_allowed: bool,
    pub expires_at: u64,
    pub provider: Address,
    pub updated_at: u64,
    pub reason: Symbol,
}

/// The rules for one asset.
#[derive(Clone, PartialEq, Eq, Debug)]
pub struct AssetRule {
    pub asset: Symbol,
    pub blocked_jurisdictions: Vec<u32>,
    /// Zero where there is no limit.
    pub daily_limit_usd: i128,
    pub require_travel_rule: bool,
    pub enabled: bool,
}

impl View for AssetRule {
    type V = AssetRuleView;

    open spec fn view(&self) -> AssetRuleView {
        AssetRuleView {
            asset: self.asset,
            blocked_jurisdictions: self.blocked_jurisdictions@,
            daily_limit_usd: self.daily_limit_usd,
            require_travel_rule: self.require_travel_rule,
            enabled: self.enabled,
        }
    }
}

/// What an address moved on a day.
#[derive(Clone, Copy, PartialEq, Eq, Structural, Debug)]
pub struct DailyVolume {
    /// When the day began.
    pub date_ts: u64,
    pub volume: i128,
}

#[derive(Clone, Copy, PartialEq, Eq, Structural, Debug)]
pub struct AttestEvent {
    pub verifier: Address,
    pub subject: Address,
    pub jurisdiction_allowed: bool,
}

#[derive(Clone, Copy, PartialEq, Eq, Structural, Debug)]
pub struct RevokeEvent {
    pub verifier: Address,
    pub subject: Address,
}

#[derive(Clone, Copy, PartialEq, Eq, Structural, Debug)]
pub struct VerifierChangedEvent {
    pub dao: Address,
    pub verifier: Address,
}

#[derive(Clone, Copy, PartialEq, Eq, Structural, Debug)]
pub struct BlockJurisdictionEvent {
    pub action: Symbol,
    pub country_code: u32,
}

#[derive(Clone, Copy, PartialEq, Eq, Structural, Debug)]
pub struct FreezeAccountEvent {
    pub account: Address,
    pub reason: Symbol,
}

#[derive(Clone, Copy, PartialEq, Eq, Structural, Debug)]
pub struct TravelRuleEvent {
    pub from: Address,
    pub to: Address,
    pub asset: Symbol,
    pub amount: i128,
    pub sequence: u64,
}

#[derive(Clone, Copy, PartialEq, Eq, Structural, Debug)]
pub struct StatusChangeEvent {
    pub account: Address,
    pub old_status: u32,
    pub new_status: u32,
    pub reason: Symbol,
}

#[derive(Clone, Copy, PartialEq, Eq, Structural, Debug)]
pub struct SubmitAttestEvent {
    pub subject: Address,
    pub provider: Address,
    pub jurisdiction_allowed: bool,
}

#[derive(Clone, Copy, PartialEq, Eq, Structural, Debug)]
pub struct ProviderRegisteredEvent {
    pub provider: Address,
    pub signer: Address,
}

/// What a call does outside the contract, in the order in which it does it.
#[derive(Clone, Copy, PartialEq, Eq, Structural, Debug)]
pub enum Effect {
    /// The address must have authorised the call.
    RequireAuth(Address),
    /// The contract's code is replaced.
    UpdateWasm(WasmHash),
    Attest(AttestEvent),
    Revoke(RevokeEvent),
    VerifierChanged(VerifierChangedEvent),
    BlockJurisdiction(BlockJurisdictionEvent),
    FreezeAccount(FreezeAccountEvent),
    TravelRule(TravelRuleEvent),
    StatusChange(StatusChangeEvent),
    SubmitAttest(SubmitAttestEvent),
    ProviderRegistered(ProviderRegisteredEvent),
}

/// The attestations, the rules and the accounts.
pub struct ComplianceRegistry {
    pub admin: Option<Address>,
    pub dao: Option<Address>,
    /// The canonical provider.
    pub verifier: Option<Address>,
    pub verifier_count: u32,
    pub travel_rule_count: u64,
    pub kyc: Table<Address, KycAttestation>,
    pub records: Table<Address, ComplianceRecord>,
    pub daily_volumes: Table<Address, DailyVolume>,
    pub asset_rules: Table<Symbol, AssetRule>,
    /// The providers that are authorised.
    pub verifiers: Table<Address, bool>,
    /// The providers that ever were, in the order in which they came.
    pub verifier_list: Table<u32, Address>,
    /// The countries that are blocked.
    pub blocked: Table<u32, bool>,
    pub frozen: Table<Address, bool>,
    /// The contracts that are exempt.
    pub whitelist: Table<Address, bool>,
    /// The providers that attested each address, by their place.
    pub providers: Table<(Address, u32), Address>,
    pub provider_counts: Table<Address, u32>,
    /// The provider that each signing key belongs to.
    pub signers: Table<Address, Address>,
}

impl View for ComplianceRegistry {
    type V = ComplianceState;

    open spec fn view(&self) -> ComplianceState {
        ComplianceState {
            admin: self.admin,
            dao: self.dao,
            verifier: self.verifier,
            verifier_count: self.verifier_count,
            travel_rule_count: self.travel_rule_count,
            kyc: table::views(self.kyc@),
            records: self.records@,
            daily_volumes: self.daily_volumes@,
            asset_rules: table::views(self.asset_rules@),
            verifiers: self.verifiers@.dom(),
            verifier_list: self.verifier_list@,
            blocked: self.blocked@.dom(),
            frozen: self.frozen@.dom(),
            whitelist: self.whitelist@.dom(),
            providers: self.providers@,
            provider_counts: self.provider_counts@,
            signers: self.signers@,
        }
    }
}

/// The member states of the European Union, by their numeric country codes.
pub fn eu_country_codes() -> (r: Vec<u32>)
    ensures
        r@ == model::eu_codes(),
{
    vec![
        40, 56, 100, 191, 196, 203, 208, 233, 246, 250, 276, 300, 348, 372, 380, 428, 440, 442, 470,
        528, 616, 620, 642, 703, 705, 724, 752,
    ]
}

/// Countries under comprehensive sanctions or of high risk, by their numeric
/// country codes.
pub fn sanctioned_country_codes() -> (r: Vec<u32>)
    ensures
        r@ == model::sanctioned_codes(),
{
    vec![192, 364, 408, 760, 643, 112, 104, 862, 729, 728]
}

/// Whether a code is among others.
fn among(codes: &Vec<u32>, code: u32) -> (r: bool)
    ensures
        r == codes@.contains(code),
{
    let mut i: usize = 0;
    while i < codes.len()
        invariant
            i <= codes@.len(),
            forall|j: int| 0 <= j < i ==> codes@[j] != code,
        decreases codes@.len() - i,
    {
        if codes[i] == code {
            return true;
        }
        i = i + 1;
    }
    false
}

/// A symbol of at most sixteen characters.
fn short(head: u128) -> (r: Symbol)
    ensures
        r == model::short(head),
{
    Symbol { head, tail: 0 }
}

/// The first second of the day that a time falls on.
fn day_start(timestamp: u64) -> (r: u64)
    ensures
        r == model::day_start(timestamp),
{
    timestamp / DAY * DAY
}

impl ComplianceStatus {
    /// The number that stands for the status in events.
    pub fn code(self) -> (r: u32)
        ensures
            r == model::code(self),
    {
        match self {
            ComplianceStatus::Unknown => 0,
            ComplianceStatus::Pending => 1,
            ComplianceStatus::Verified => 2,
            ComplianceStatus::Suspended => 3,
            ComplianceStatus::Sanctioned => 4,
            ComplianceStatus::Expired => 5,
        }
    }
}

impl ComplianceRegistry {
    /// The contract before it is set up.
    pub fn new() -> (r: ComplianceRegistry)
        ensures
            r@ == ComplianceState::blank(),
    {
        let r = ComplianceRegistry {
            admin: None,
            dao: None,
            verifier: None,
            verifier_count: 0,
            travel_rule_count: 0,
            kyc: Table::new(),
            records: Table::new(),
            daily_volumes: Table::new(),
            asset_rules: Table::new(),
            verifiers: Table::new(),
            verifier_list: Table::new(),
            blocked: Table::new(),
            frozen: Table::new(),
            whitelist: Table::new(),
            providers: Table::new(),
            provider_counts: Table::new(),
            signers: Table::new(),
        };
        assert(r@ =~= ComplianceState::blank());
        r
    }

    /// Sets up the contract. Once. The United States, the European Union and
    /// countries under sanctions are blocked.
    pub fn initialize(&mut self, admin: Address, dao: Address) -> (r: Result<Vec<Effect>, Error>)
        ensures
            crate::error::agrees(r, old(self)@, final(self)@, old(self)@.initialize(admin, dao)),
    {
        if self.admin.is_some() {
            return Err(Error::AlreadyInitialised);
        }
        self.admin = Some(admin);
        self.dao = Some(dao);
        self.verifier_count = 0;
        self.travel_rule_count = 0;
        self._seed_restricted_regions();
        self._seed_sanctioned_countries();
        Ok(vec![Effect::RequireAuth(admin)])
    }

    // ── Verifiers ─────────────────────────────────────────────────

    /// Sets the canonical provider. The one before is not authorised any
    /// more; other providers stay.
    pub fn set_verifier(&mut self, dao: Address, verifier: Address) -> (r: Result<
        Vec<Effect>,
        Error,
    >)
        ensures
            crate::error::agrees(r, old(self)@, final(self)@, old(self)@.set_verifier(dao, verifier)),
    {
        self._require_dao(dao)?;
        proof {
            self@.lemma_same_list(self@.without_replaced(verifier), verifier);
        }
        if self.verifier_count == u32::MAX && !self.is_listed(verifier) {
            return Err(Error::Arithmetic);
        }
        match self.verifier {
            Some(before) => {
                if before != verifier {
                    self.verifiers.remove(&before);
                }
            },
            None => {},
        }
        self._add_verifier_internal(verifier)?;
        self.verifier = Some(verifier);
        Ok(
            vec![
                Effect::RequireAuth(dao),
                Effect::VerifierChanged(VerifierChangedEvent { dao, verifier }),
            ],
        )
    }

    /// Authorises one more provider.
    pub fn add_verifier(&mut self, dao: Address, verifier: Address) -> (r: Result<
        Vec<Effect>,
        Error,
    >)
        ensures
            crate::error::agrees(r, old(self)@, final(self)@, old(self)@.add_verifier(dao, verifier)),
    {
        self._require_dao(dao)?;
        self._add_verifier_internal(verifier)?;
        Ok(vec![Effect::RequireAuth(dao)])
    }

    /// Withdraws the authorisation of a provider.
    pub fn remove_verifier(&mut self, dao: Address, verifier: Address) -> (r: Result<
        Vec<Effect>,
        Error,
    >)
        ensures
            crate::error::agrees(
                r,
                old(self)@,
                final(self)@,
                old(self)@.remove_verifier(dao, verifier),
            ),
    {
        self._require_dao(dao)?;
        self.verifiers.remove(&verifier);
        Ok(vec![Effect::RequireAuth(dao)])
    }

    /// The canonical provider, if one was set.
    pub fn get_verifier(&self) -> (r: Option<Address>)
        ensures
            r == self@.verifier,
    {
        self.verifier
    }

    /// Whether a provider is authorised.
    pub fn is_verifier(&self, addr: Address) -> (r: bool)
        ensures
            r == self@.verifiers.contains(addr),
    {
        self.verifiers.contains(&addr)
    }

    /// The providers that are authorised.
    pub fn list_verifiers(&self) -> (r: Vec<Address>)
        ensures
            r@ == self@.listed(self@.verifier_count as nat),
    {
        let mut out: Vec<Address> = Vec::new();
        let mut i: u32 = 0;
        while i < self.verifier_count
            invariant
                i <= self.verifier_count,
                out@ == self@.listed(i as nat),
            decreases self.verifier_count - i,
        {
            match self.verifier_list.get(&i) {
                Some(addr) => {
                    if self.verifiers.contains(addr) {
                        out.push(*addr);
                    }
                },
                None => {},
            }
            i = i + 1;
        }
        out
    }

    // ── Attestations ──────────────────────────────────────────────

    /// Attests an address. The provider calls this; it is refused for a
    /// jurisdiction that is blocked.
    pub fn attest(
        &mut self,
        env: &Context,
        verifier: Address,
        subject: Address,
        jurisdiction: u32,
        expires_at: u64,
        metadata: Vec<u8>,
    ) -> (r: Result<Vec<Effect>, Error>)
        ensures
            crate::error::agrees(
                r,
                old(self)@,
                final(self)@,
                old(self)@.attest(*env, verifier, subject, jurisdiction, expires_at, metadata@),
            ),
    {
        if !self.verifiers.contains(&verifier) {
            return Err(Error::NotAuthorisedVerifier);
        }
        if self.blocked.contains(&jurisdiction) {
            return Err(Error::JurisdictionBlocked);
        }
        self.record_attestation(env, verifier, subject, jurisdiction, expires_at, metadata)?;
        Ok(
            vec![
                Effect::RequireAuth(verifier),
                Effect::Attest(AttestEvent { verifier, subject, jurisdiction_allowed: true }),
            ],
        )
    }

    /// Stores an attestation, the record that follows from it and the
    /// provider.
    fn record_attestation(
        &mut self,
        env: &Context,
        provider: Address,
        subject: Address,
        jurisdiction: u32,
        expires_at: u64,
        metadata: Vec<u8>,
    ) -> (r: Result<(), Error>)
        ensures
            match old(self)@.with_attestation(
                *env,
                provider,
                subject,
                jurisdiction,
                expires_at,
                metadata@,
            ) {
                Err(e) => r == Err::<(), Error>(e) && final(self)@ == old(self)@,
                Ok(next) => r is Ok && final(self)@ == next,
            },
    {
        broadcast use table::lemma_views_insert;

        let now: u64 = env.timestamp;
        let mut rec = self._get_compliance_record(subject);
        if rec.status != ComplianceStatus::Suspended && rec.status != ComplianceStatus::Sanctioned {
            rec.status = ComplianceStatus::Verified;
            rec.reason = short(ATTEST);
        }
        rec.jurisdiction = jurisdiction;
        rec.expires_at = expires_at;
        rec.provider = provider;
        rec.updated_at = now;
        let ghost mid = ComplianceState {
            kyc: self@.kyc.insert(
                subject,
                KycAttestationView {
                    address: subject,
                    verifier: provider,
                    jurisdiction,
                    issued_at: now,
                    expires_at,
                    metadata: metadata@,
                },
            ),
            records: self@.records.insert(subject, rec),
            ..self@
        };
        proof {
            assert(mid.has_provider(subject, provider) == self@.has_provider(subject, provider));
            assert(mid.provider_count(subject) == self@.provider_count(subject));
        }
        self._add_provider_to_subject(subject, provider)?;
        self.kyc.insert(
            subject,
            KycAttestation {
                address: subject,
                verifier: provider,
                jurisdiction,
                issued_at: now,
                expires_at,
                metadata,
            },
        );
        self.records.insert(subject, rec);
        Ok(())
    }

    /// Withdraws an attestation. Only the provider that made it can. Neither a
    /// suspension nor a sanction ends with it.
    pub fn revoke(&mut self, env: &Context, verifier: Address, subject: Address) -> (r: Result<
        Vec<Effect>,
        Error,
    >)
        ensures
            crate::error::agrees(
                r,
                old(self)@,
                final(self)@,
                old(self)@.revoke(*env, verifier, subject),
            ),
    {
        broadcast use table::lemma_views_remove;

        match self.kyc.get(&subject) {
            None => return Err(Error::NoAttestation),
            Some(att) => {
                if att.verifier != verifier {
                    return Err(Error::NotOwnAttestation);
                }
            },
        }
        let mut rec = self._get_compliance_record(subject);
        self.kyc.remove(&subject);
        if rec.provider == verifier && rec.status != ComplianceStatus::Sanctioned && rec.status
            != ComplianceStatus::Suspended {
            rec.status = ComplianceStatus::Unknown;
            rec.updated_at = env.timestamp;
            rec.reason = short(REVOKED);
            self.records.insert(subject, rec);
        }
        Ok(
            vec![Effect::RequireAuth(verifier), Effect::Revoke(RevokeEvent { verifier, subject })],
        )
    }

    /// Registers a signing key of an authorised provider.
    pub fn register_signer(&mut self, provider: Address, signer: Address) -> (r: Result<
        Vec<Effect>,
        Error,
    >)
        ensures
            crate::error::agrees(
                r,
                old(self)@,
                final(self)@,
                old(self)@.register_signer(provider, signer),
            ),
    {
        if !self.verifiers.contains(&provider) {
            return Err(Error::ProviderNotVerifier);
        }
        self.signers.insert(signer, provider);
        Ok(
            vec![
                Effect::RequireAuth(provider),
                Effect::ProviderRegistered(ProviderRegisteredEvent { provider, signer }),
            ],
        )
    }

    /// The provider that a signing key belongs to.
    pub fn get_provider_for_signer(&self, signer: Address) -> (r: Option<Address>)
        ensures
            r == (if self@.signers.contains_key(signer) {
                Some(self@.signers[signer])
            } else {
                None
            }),
    {
        match self.signers.get(&signer) {
            Some(p) => Some(*p),
            None => None,
        }
    }

    /// Submits what a provider attested. The user calls this; the provider
    /// authorises it too.
    pub fn submit_attestation(
        &mut self,
        env: &Context,
        subject: Address,
        signer: Address,
        jurisdiction: u32,
        expires_at: u64,
    ) -> (r: Result<Vec<Effect>, Error>)
        ensures
            crate::error::agrees(
                r,
                old(self)@,
                final(self)@,
                old(self)@.submit_attestation(*env, subject, signer, jurisdiction, expires_at),
            ),
    {
        let provider: Address = match self.signers.get(&signer) {
            Some(p) => *p,
            None => return Err(Error::SignerNotRegistered),
        };
        if !self.verifiers.contains(&provider) {
            return Err(Error::ProviderNoLongerAuthorised);
        }
        if self.blocked.contains(&jurisdiction) {
            return Err(Error::JurisdictionBlocked);
        }
        self.record_attestation(env, provider, subject, jurisdiction, expires_at, Vec::new())?;
        Ok(
            vec![
                Effect::RequireAuth(subject),
                Effect::RequireAuth(provider),
                Effect::SubmitAttest(
                    SubmitAttestEvent { subject, provider, jurisdiction_allowed: true },
                ),
            ],
        )
    }

    // ── Rules ─────────────────────────────────────────────────────

    /// Sets the rules for an asset.
    pub fn set_asset_rule(
        &mut self,
        dao: Address,
        asset: Symbol,
        blocked_juris: Vec<u32>,
        daily_limit: i128,
        travel_rule: bool,
    ) -> (r: Result<Vec<Effect>, Error>)
        ensures
            crate::error::agrees(
                r,
                old(self)@,
                final(self)@,
                old(self)@.set_asset_rule(dao, asset, blocked_juris@, daily_limit, travel_rule),
            ),
    {
        broadcast use table::lemma_views_insert;

        self._require_dao(dao)?;
        let rule = AssetRule {
            asset,
            blocked_jurisdictions: blocked_juris,
            daily_limit_usd: daily_limit,
            require_travel_rule: travel_rule,
            enabled: true,
        };
        self.asset_rules.insert(asset, rule);
        Ok(vec![Effect::RequireAuth(dao)])
    }

    /// Blocks a country.
    pub fn block_jurisdiction(&mut self, dao: Address, country_code: u32) -> (r: Result<
        Vec<Effect>,
        Error,
    >)
        ensures
            crate::error::agrees(
                r,
                old(self)@,
                final(self)@,
                old(self)@.block_jurisdiction(dao, country_code),
            ),
    {
        self._require_dao(dao)?;
        self.blocked.insert(country_code, true);
        Ok(
            vec![
                Effect::RequireAuth(dao),
                Effect::BlockJurisdiction(
                    BlockJurisdictionEvent { action: short(JUR), country_code },
                ),
            ],
        )
    }

    /// Lifts the block on a country.
    pub fn unblock_jurisdiction(&mut self, dao: Address, country_code: u32) -> (r: Result<
        Vec<Effect>,
        Error,
    >)
        ensures
            crate::error::agrees(
                r,
                old(self)@,
                final(self)@,
                old(self)@.unblock_jurisdiction(dao, country_code),
            ),
    {
        self._require_dao(dao)?;
        self.blocked.remove(&country_code);
        Ok(vec![Effect::RequireAuth(dao)])
    }

    /// Blocks the United States and the European Union again.
    pub fn block_us_and_eu(&mut self, dao: Address) -> (r: Result<Vec<Effect>, Error>)
        ensures
            crate::error::agrees(r, old(self)@, final(self)@, old(self)@.block_us_and_eu(dao)),
    {
        self._require_dao(dao)?;
        self._seed_restricted_regions();
        Ok(vec![Effect::RequireAuth(dao)])
    }

    /// Blocks the countries under sanctions again.
    pub fn block_sanctioned_countries(&mut self, dao: Address) -> (r: Result<Vec<Effect>, Error>)
        ensures
            crate::error::agrees(
                r,
                old(self)@,
                final(self)@,
                old(self)@.block_sanctioned_countries(dao),
            ),
    {
        self._require_dao(dao)?;
        self._seed_sanctioned_countries();
        Ok(vec![Effect::RequireAuth(dao)])
    }

    /// Whether a code stands for the United States or a member of the
    /// European Union.
    pub fn is_us_or_eu(code: u32) -> (r: bool)
        ensures
            r == model::us_or_eu(code),
    {
        code == US_COUNTRY_CODE || among(&eu_country_codes(), code)
    }

    /// Whether a code stands for a country under sanctions.
    pub fn is_sanctioned_country(code: u32) -> (r: bool)
        ensures
            r == model::sanctioned_codes().contains(code),
    {
        among(&sanctioned_country_codes(), code)
    }

    // ── Accounts ──────────────────────────────────────────────────

    /// Freezes an account.
    pub fn freeze_account(&mut self, admin: Address, account: Address, reason: Symbol) -> (r:
        Result<Vec<Effect>, Error>)
        ensures
            crate::error::agrees(
                r,
                old(self)@,
                final(self)@,
                old(self)@.freeze_account(admin, account, reason),
            ),
    {
        self._require_admin(admin)?;
        self.frozen.insert(account, true);
        Ok(
            vec![
                Effect::RequireAuth(admin),
                Effect::FreezeAccount(FreezeAccountEvent { account, reason }),
            ],
        )
    }

    /// Unfreezes an account.
    pub fn unfreeze_account(&mut self, admin: Address, account: Address) -> (r: Result<
        Vec<Effect>,
        Error,
    >)
        ensures
            crate::error::agrees(
                r,
                old(self)@,
                final(self)@,
                old(self)@.unfreeze_account(admin, account),
            ),
    {
        self._require_admin(admin)?;
        self.frozen.remove(&account);
        Ok(
            vec![
                Effect::RequireAuth(admin),
                Effect::FreezeAccount(FreezeAccountEvent { account, reason: short(UNFRZ) }),
            ],
        )
    }

    /// Exempts a contract from the checks, or stops to.
    pub fn set_whitelist(&mut self, admin: Address, contract: Address, whitelisted: bool) -> (r:
        Result<Vec<Effect>, Error>)
        ensures
            crate::error::agrees(
                r,
                old(self)@,
                final(self)@,
                old(self)@.set_whitelist(admin, contract, whitelisted),
            ),
    {
        self._require_admin(admin)?;
        if whitelisted {
            self.whitelist.insert(contract, true);
        } else {
            self.whitelist.remove(&contract);
        }
        Ok(vec![Effect::RequireAuth(admin)])
    }

    /// Suspends an account. What its provider attested stays.
    pub fn suspend_account(
        &mut self,
        env: &Context,
        admin: Address,
        account: Address,
        reason: Symbol,
    ) -> (r: Result<Vec<Effect>, Error>)
        ensures
            crate::error::agrees(
                r,
                old(self)@,
                final(self)@,
                old(self)@.suspend_account(*env, admin, account, reason),
            ),
    {
        self._require_admin(admin)?;
        Ok(self.change_status(env, admin, account, ComplianceStatus::Suspended, reason))
    }

    /// Ends a suspension: the account is verified again where its attestation
    /// is still on file, and unknown where it is not.
    pub fn unsuspend_account(&mut self, env: &Context, admin: Address, account: Address) -> (r: Result<
        Vec<Effect>,
        Error,
    >)
        ensures
            crate::error::agrees(
                r,
                old(self)@,
                final(self)@,
                old(self)@.unsuspend_account(*env, admin, account),
            ),
    {
        self._require_admin(admin)?;
        if self._get_compliance_record(account).status != ComplianceStatus::Suspended {
            return Err(Error::NotSuspended);
        }
        let status: ComplianceStatus = if self.kyc.contains(&account) {
            ComplianceStatus::Verified
        } else {
            ComplianceStatus::Unknown
        };
        Ok(self.change_status(env, admin, account, status, short(UNSUSPEND)))
    }

    /// Sanctions an account, for good, and freezes it.
    pub fn sanction_account(
        &mut self,
        env: &Context,
        admin: Address,
        account: Address,
        reason: Symbol,
    ) -> (r: Result<Vec<Effect>, Error>)
        ensures
            crate::error::agrees(
                r,
                old(self)@,
                final(self)@,
                old(self)@.sanction_account(*env, admin, account, reason),
            ),
    {
        self._require_admin(admin)?;
        let effects = self.change_status(
            env,
            admin,
            account,
            ComplianceStatus::Sanctioned,
            reason,
        );
        self.frozen.insert(account, true);
        Ok(effects)
    }

    /// Gives an account another status.
    fn change_status(
        &mut self,
        env: &Context,
        admin: Address,
        account: Address,
        status: ComplianceStatus,
        reason: Symbol,
    ) -> (r: Vec<Effect>)
        ensures
            (final(self)@, r@) == old(self)@.with_status(*env, admin, account, status, reason),
    {
        let mut rec = self._get_compliance_record(account);
        let old_status: u32 = rec.status.code();
        rec.status = status;
        rec.updated_at = env.timestamp;
        rec.reason = reason;
        self.records.insert(account, rec);
        let new_status: u32 = status.code();
        let r = vec![
            Effect::RequireAuth(admin),
            Effect::StatusChange(StatusChangeEvent { account, old_status, new_status, reason }),
        ];
        assert(r@ =~= old(self)@.with_status(*env, admin, account, status, reason).1);
        r
    }

    /// Replaces the contract's code; what it stores stays. The DAO that is
    /// stored must authorise this.
    pub fn upgrade(&mut self, _dao: Address, new_wasm_hash: WasmHash) -> (r: Result<
        Vec<Effect>,
        Error,
    >)
        ensures
            crate::error::agrees(r, old(self)@, final(self)@, old(self)@.upgrade(new_wasm_hash)),
    {
        match self.dao {
            None => Err(Error::NotInitialised),
            Some(dao) => Ok(
                vec![Effect::RequireAuth(dao), Effect::UpdateWasm(new_wasm_hash)],
            ),
        }
    }

    // ── Checks ────────────────────────────────────────────────────

    /// Refuses a transfer that is not allowed, and counts one that is.
    /// Whitelisted contracts are exempt among themselves; a whitelisted
    /// caller exempts nobody else.
    pub fn assert_transfer_allowed(
        &mut self,
        env: &Context,
        caller: Address,
        from: Address,
        to: Address,
        asset: Symbol,
        amount: i128,
    ) -> (r: Result<(bool, Vec<Effect>), Error>)
        ensures
            crate::error::agrees_on(
                r,
                old(self)@,
                final(self)@,
                old(self)@.assert_transfer_allowed(*env, caller, from, to, asset, amount),
            ),
    {
        if self.whitelist.contains(&caller) && self.whitelist.contains(&from)
            && self.whitelist.contains(&to) {
            return Ok((true, Vec::new()));
        }
        if self.frozen.contains(&from) {
            return Err(Error::SenderFrozen);
        }
        if self.frozen.contains(&to) {
            return Err(Error::RecipientFrozen);
        }
        if self._get_compliance_record(from).status == ComplianceStatus::Sanctioned {
            return Err(Error::SenderSanctioned);
        }
        if self._get_compliance_record(to).status == ComplianceStatus::Sanctioned {
            return Err(Error::RecipientSanctioned);
        }
        let now: u64 = env.timestamp;
        let from_jurisdiction: Option<u32> = match self.kyc.get(&from) {
            None => None,
            Some(a) => {
                if a.expires_at > 0 && a.expires_at < now {
                    return Err(Error::SenderExpired);
                }
                Some(a.jurisdiction)
            },
        };
        let to_jurisdiction: Option<u32> = match self.kyc.get(&to) {
            None => None,
            Some(a) => {
                if a.expires_at > 0 && a.expires_at < now {
                    return Err(Error::RecipientExpired);
                }
                Some(a.jurisdiction)
            },
        };
        let limit: i128;
        let flagged: bool;
        match self.asset_rules.get(&asset) {
            None => return Ok((true, Vec::new())),
            Some(rule) => {
                if !rule.enabled {
                    return Ok((true, Vec::new()));
                }
                match from_jurisdiction {
                    None => return Err(Error::SenderKycRequired),
                    Some(sender) => match to_jurisdiction {
                        None => return Err(Error::RecipientKycRequired),
                        Some(recipient) => {
                            if among(&rule.blocked_jurisdictions, sender) {
                                return Err(Error::SenderJurisdictionBlockedForAsset);
                            }
                            if self.blocked.contains(&sender) {
                                return Err(Error::SenderJurisdictionBlocked);
                            }
                            if among(&rule.blocked_jurisdictions, recipient) {
                                return Err(Error::RecipientJurisdictionBlockedForAsset);
                            }
                            if self.blocked.contains(&recipient) {
                                return Err(Error::RecipientJurisdictionBlocked);
                            }
                        },
                    },
                }
                limit = if rule.daily_limit_usd > 0 {
                    rule.daily_limit_usd
                } else {
                    DEFAULT_DAILY_LIMIT
                };
                flagged = rule.require_travel_rule && amount >= TRAVEL_RULE_THRESHOLD;
            },
        }
        let volume = self._check_volume(env, from, amount, limit)?;
        if flagged && self.travel_rule_count == u64::MAX {
            return Err(Error::Arithmetic);
        }
        self.daily_volumes.insert(from, volume);
        if flagged {
            Ok((true, vec![self._log_travel_rule(from, to, asset, amount)]))
        } else {
            Ok((true, Vec::new()))
        }
    }

    /// Whether a transfer looks allowed. Nothing is counted, and limits,
    /// jurisdictions and sanctions are left out.
    pub fn is_transfer_allowed(
        &self,
        env: &Context,
        from: Address,
        to: Address,
        asset: Symbol,
        _amount: i128,
    ) -> (r: bool)
        ensures
            r == self@.is_transfer_allowed(*env, from, to, asset),
    {
        if self.frozen.contains(&from) || self.frozen.contains(&to) {
            return false;
        }
        let attested = match self.kyc.get(&from) {
            None => false,
            Some(a) => {
                if a.expires_at > 0 && a.expires_at < env.timestamp {
                    return false;
                }
                true
            },
        };
        match self.asset_rules.get(&asset) {
            None => true,
            Some(rule) => !rule.enabled || attested,
        }
    }

    /// Refuses a user who may not use the protocol. Whitelisted contracts are
    /// exempt among themselves; a whitelisted caller exempts no user.
    pub fn assert_user_compliant(&self, env: &Context, caller: Address, user: Address) -> (r: Result<
        bool,
        Error,
    >)
        ensures
            r == self@.assert_user_compliant(*env, caller, user),
    {
        if self.whitelist.contains(&caller) && self.whitelist.contains(&user) {
            return Ok(true);
        }
        if self.frozen.contains(&user) {
            return Err(Error::AccountFrozen);
        }
        let rec = self._get_compliance_record(user);
        match rec.status {
            ComplianceStatus::Unknown => return Err(Error::KycRequired),
            ComplianceStatus::Pending => return Err(Error::KycPending),
            ComplianceStatus::Suspended => return Err(Error::AccountSuspended),
            ComplianceStatus::Sanctioned => return Err(Error::AccountSanctioned),
            ComplianceStatus::Expired => return Err(Error::KycExpired),
            ComplianceStatus::Verified => {},
        }
        if rec.expires_at != 0 && rec.expires_at < env.timestamp {
            return Err(Error::KycExpired);
        }
        if self.blocked.contains(&rec.jurisdiction) {
            return Err(Error::UnavailableInJurisdiction);
        }
        Ok(true)
    }

    /// Whether a user may use the protocol.
    pub fn is_user_compliant(&self, env: &Context, user: Address) -> (r: bool)
        ensures
            r == self@.is_user_compliant(*env, user),
    {
        if self.frozen.contains(&user) {
            return false;
        }
        let rec = self._get_compliance_record(user);
        if rec.status != ComplianceStatus::Verified {
            return false;
        }
        if rec.expires_at != 0 && rec.expires_at < env.timestamp {
            return false;
        }
        !self.blocked.contains(&rec.jurisdiction)
    }

    /// Whether a user may use the protocol.
    pub fn is_verified(&self, env: &Context, user: Address) -> (r: bool)
        ensures
            r == self@.is_user_compliant(*env, user),
    {
        self.is_user_compliant(env, user)
    }

    /// How an address stands, without its jurisdiction.
    pub fn get_compliance_status(&self, user: Address) -> (r: ComplianceView)
        ensures
            r == self@.get_compliance_status(user),
    {
        let rec = self._get_compliance_record(user);
        let jurisdiction_allowed = self.get_provider_count(user) > 0 && rec.status
            != ComplianceStatus::Unknown && !self.blocked.contains(&rec.jurisdiction);
        ComplianceView {
            status: rec.status,
            jurisdiction_allowed,
            expires_at: rec.expires_at,
            provider: rec.provider,
            updated_at: rec.updated_at,
            reason: rec.reason,
        }
    }

    /// The providers that attested an address.
    pub fn get_providers(&self, subject: Address) -> (r: Vec<Address>)
        ensures
            r@ == self@.providers_of(subject, self@.provider_count(subject) as nat),
    {
        let count: u32 = self.get_provider_count(subject);
        let mut out: Vec<Address> = Vec::new();
        let mut i: u32 = 0;
        while i < count
            invariant
                i <= count,
                out@ == self@.providers_of(subject, i as nat),
            decreases count - i,
        {
            match self.providers.get(&(subject, i)) {
                Some(p) => {
                    out.push(*p);
                },
                None => {},
            }
            i = i + 1;
        }
        out
    }

    /// How many providers attested an address.
    pub fn get_provider_count(&self, subject: Address) -> (r: u32)
        ensures
            r == self@.provider_count(subject),
    {
        match self.provider_counts.get(&subject) {
            Some(n) => *n,
            None => 0,
        }
    }

    /// Whether an account is frozen.
    pub fn is_frozen(&self, addr: Address) -> (r: bool)
        ensures
            r == self@.frozen.contains(addr),
    {
        self.frozen.contains(&addr)
    }

    /// Whether a country is blocked.
    pub fn is_jurisdiction_blocked(&self, code: u32) -> (r: bool)
        ensures
            r == self@.blocked.contains(code),
    {
        self.blocked.contains(&code)
    }

    /// Whether the jurisdiction of a user is known and not blocked.
    pub fn is_jurisdiction_ok(&self, user: Address) -> (r: bool)
        ensures
            r == self@.is_jurisdiction_ok(user),
    {
        match self.kyc.get(&user) {
            None => false,
            Some(a) => !self.blocked.contains(&a.jurisdiction),
        }
    }

    /// The rules for an asset.
    pub fn get_asset_rule(&self, asset: Symbol) -> (r: Option<AssetRule>)
        ensures
            match r {
                Some(rule) => self@.asset_rules.contains_key(asset) && self@.asset_rules[asset]
                    == rule@,
                None => !self@.asset_rules.contains_key(asset),
            },
    {
        match self.asset_rules.get(&asset) {
            None => None,
            Some(rule) => {
                let mut codes: Vec<u32> = Vec::new();
                let mut i: usize = 0;
                while i < rule.blocked_jurisdictions.len()
                    invariant
                        i <= rule.blocked_jurisdictions@.len(),
                        codes@ =~= rule.blocked_jurisdictions@.take(i as int),
                    decreases rule.blocked_jurisdictions@.len() - i,
                {
                    codes.push(rule.blocked_jurisdictions[i]);
                    i = i + 1;
                }
                proof {
                    assert(codes@ =~= rule.blocked_jurisdictions@);
                }
                Some(
                    AssetRule {
                        asset: rule.asset,
                        blocked_jurisdictions: codes,
                        daily_limit_usd: rule.daily_limit_usd,
                        require_travel_rule: rule.require_travel_rule,
                        enabled: rule.enabled,
                    },
                )
            },
        }
    }

    /// What an address moved today.
    pub fn get_daily_volume(&self, env: &Context, addr: Address) -> (r: i128)
        ensures
            r == self@.volume(*env, addr),
    {
        match self.daily_volumes.get(&addr) {
            None => 0,
            Some(d) => if d.date_ts == day_start(env.timestamp) {
                d.volume
            } else {
                0
            },
        }
    }

    /// How many transfers were flagged for the Travel Rule.
    pub fn get_travel_rule_count(&self) -> (r: u64)
        ensures
            r == self@.travel_rule_count,
    {
        self.travel_rule_count
    }

    /// Whether a verifier is listed, authorised still or not.
    fn is_listed(&self, verifier: Address) -> (r: bool)
        ensures
            r == self@.is_listed(verifier),
    {
        let mut i: u32 = 0;
        while i < self.verifier_count
            invariant
                i <= self.verifier_count,
                forall|j: u32| j < i ==> !(#[trigger] self@.stands_at(j, verifier)),
            decreases self.verifier_count - i,
        {
            match self.verifier_list.get(&i) {
                Some(listed) => {
                    if *listed == verifier {
                        assert(self@.stands_at(i, verifier));
                        return true;
                    }
                },
                None => {},
            }
            i = i + 1;
        }
        false
    }

    fn _add_verifier_internal(&mut self, verifier: Address) -> (r: Result<(), Error>)
        ensures
            match old(self)@.with_verifier(verifier) {
                Err(e) => r == Err::<(), Error>(e) && final(self)@ == old(self)@,
                Ok(next) => r is Ok && final(self)@ == next,
            },
    {
        if self.is_listed(verifier) {
            self.verifiers.insert(verifier, true);
            return Ok(());
        }
        let count: u32 = self.verifier_count;
        if count == u32::MAX {
            return Err(Error::Arithmetic);
        }
        self.verifiers.insert(verifier, true);
        self.verifier_list.insert(count, verifier);
        self.verifier_count = count + 1;
        Ok(())
    }

    fn _seed_restricted_regions(&mut self)
        ensures
            final(self)@ == (ComplianceState {
                blocked: model::with_us_and_eu(old(self)@.blocked),
                ..old(self)@
            }),
    {
        self.blocked.insert(US_COUNTRY_CODE, true);
        self.block_all(&eu_country_codes());
    }

    fn _seed_sanctioned_countries(&mut self)
        ensures
            final(self)@ == (ComplianceState {
                blocked: model::with_sanctioned(old(self)@.blocked),
                ..old(self)@
            }),
    {
        self.block_all(&sanctioned_country_codes());
    }

    /// Blocks several countries.
    fn block_all(&mut self, codes: &Vec<u32>)
        ensures
            final(self)@ == (ComplianceState {
                blocked: old(self)@.blocked.union(codes@.to_set()),
                ..old(self)@
            }),
    {
        let mut i: usize = 0;
        proof {
            assert(codes@.take(0).to_set() =~= Set::<u32>::empty());
            assert(self@.blocked =~= self@.blocked.union(codes@.take(0).to_set()));
        }
        while i < codes.len()
            invariant
                i <= codes@.len(),
                self@ == (ComplianceState {
                    blocked: old(self)@.blocked.union(codes@.take(i as int).to_set()),
                    ..old(self)@
                }),
            decreases codes@.len() - i,
        {
            let ghost before = self@.blocked;
            self.blocked.insert(codes[i], true);
            proof {
                let now = codes@.take(i as int);
                let next = codes@.take(i + 1);
                assert(next =~= now.push(codes@[i as int]));
                assert forall|c: u32| next.to_set().contains(c) == (now.to_set().contains(c) || c
                    == codes@[i as int]) by {
                    if now.contains(c) {
                        let j = choose|j: int| 0 <= j < now.len() && now[j] == c;
                        assert(next[j] == c);
                    }
                    assert(next[i as int] == codes@[i as int]);
                    if next.contains(c) {
                        let j = choose|j: int| 0 <= j < next.len() && next[j] == c;
                        if j < i {
                            assert(now[j] == c);
                        }
                    }
                }
                assert(self@.blocked =~= old(self)@.blocked.union(next.to_set()));
            }
            i = i + 1;
        }
        proof {
            assert(codes@.take(i as int) =~= codes@);
        }
    }

    fn _get_compliance_record(&self, addr: Address) -> (r: ComplianceRecord)
        ensures
            r == self@.record(addr),
    {
        match self.records.get(&addr) {
            Some(rec) => *rec,
            None => ComplianceRecord {
                status: ComplianceStatus::Unknown,
                jurisdiction: 0,
                expires_at: 0,
                provider: addr,
                updated_at: 0,
                reason: short(NONE),
            },
        }
    }

    /// Lists a provider for an address, once.
    fn _add_provider_to_subject(&mut self, subject: Address, provider: Address) -> (r: Result<
        (),
        Error,
    >)
        ensures
            match old(self)@.with_provider(subject, provider) {
                Err(e) => r == Err::<(), Error>(e) && final(self)@ == old(self)@,
                Ok(next) => r is Ok && final(self)@ == next,
            },
            final(self).kyc == old(self).kyc,
            final(self).records == old(self).records,
    {
        let count: u32 = self.get_provider_count(subject);
        let mut i: u32 = 0;
        while i < count
            invariant
                i <= count,
                count == self@.provider_count(subject),
                *self == *old(self),
                forall|j: u32|
                    j < i ==> !(#[trigger] self@.providers.contains_key((subject, j))
                        && self@.providers[(subject, j)] == provider),
            decreases count - i,
        {
            match self.providers.get(&(subject, i)) {
                Some(p) => {
                    if *p == provider {
                        assert(self@.providers.contains_key((subject, i)));
                        return Ok(());
                    }
                },
                None => {},
            }
            i = i + 1;
        }
        if count == u32::MAX {
            return Err(Error::Arithmetic);
        }
        self.providers.insert((subject, count), provider);
        self.provider_counts.insert(subject, count + 1);
        Ok(())
    }

    /// What an address has moved today with a transfer that its limit allows.
    fn _check_volume(&self, env: &Context, user: Address, amount: i128, limit: i128) -> (r: Result<
        DailyVolume,
        Error,
    >)
        ensures
            match self@.with_volume(*env, user, amount, limit) {
                Err(e) => r == Err::<DailyVolume, Error>(e),
                Ok(next) => r matches Ok(v) && next == (ComplianceState {
                    daily_volumes: self@.daily_volumes.insert(user, v),
                    ..self@
                }),
            },
    {
        let before: i128 = self.get_daily_volume(env, user);
        let volume: i128 = arith::plus(before, amount)?;
        if volume > limit {
            return Err(Error::DailyLimitExceeded);
        }
        Ok(DailyVolume { date_ts: day_start(env.timestamp), volume })
    }

    /// Flags a transfer for the Travel Rule.
    fn _log_travel_rule(&mut self, from: Address, to: Address, asset: Symbol, amount: i128) -> (r:
        Effect)
        requires
            old(self)@.travel_rule_count < u64::MAX,
        ensures
            final(self)@ == (ComplianceState {
                travel_rule_count: (old(self)@.travel_rule_count + 1) as u64,
                ..old(self)@
            }),
            r == Effect::TravelRule(
                (TravelRuleEvent {
                    from,
                    to,
                    asset,
                    amount,
                    sequence: old(self)@.travel_rule_count,
                }),
            ),
    {
        let sequence: u64 = self.travel_rule_count;
        self.travel_rule_count = sequence + 1;
        Effect::TravelRule(TravelRuleEvent { from, to, asset, amount, sequence })
    }

    fn _require_admin(&self, caller: Address) -> (r: Result<(), Error>)
        ensures
            r == match self@.admin_error(caller) {
                None => Ok::<(), Error>(()),
                Some(e) => Err(e),
            },
    {
        match self.admin {
            None => Err(Error::NotInitialised),
            Some(admin) => if caller == admin {
                Ok(())
            } else {
                Err(Error::AdminOnly)
            },
        }
    }

    fn _require_dao(&self, caller: Address) -> (r: Result<(), Error>)
        ensures
            r == match self@.dao_error(caller) {
                None => Ok::<(), Error>(()),
                Some(e) => Err(e),
            },
    {
        match self.dao {
            None => Err(Error::NotInitialised),
            Some(dao) => if caller == dao {
                Ok(())
            } else {
                Err(Error::DaoOnly)
            },
        }
    }
}

} // verus!
