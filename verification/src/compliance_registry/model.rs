//! What each call on the compliance registry does to it.
use crate::arith;
use crate::compliance_registry::{
    AttestEvent, BlockJurisdictionEvent, ComplianceRecord, ComplianceStatus, ComplianceView,
    DailyVolume, Effect, FreezeAccountEvent, ProviderRegisteredEvent, RevokeEvent,
    StatusChangeEvent, SubmitAttestEvent, TravelRuleEvent, VerifierChangedEvent, ATTEST, DAY,
    DEFAULT_DAILY_LIMIT, JUR, NONE, REVOKED, TRAVEL_RULE_THRESHOLD, UNFRZ, UNSUSPEND,
    US_COUNTRY_CODE,
};
use crate::error;
use crate::error::Error;
use crate::types::{Address, Context, Symbol, WasmHash};
use vstd::prelude::*;

verus! {

/// What a provider said of an address.
#[verifier::ext_equal]
pub struct KycAttestationView {
    pub address: Address,
    pub verifier: Address,
    pub jurisdiction: u32,
    pub issued_at: u64,
    pub expires_at: u64,
    pub metadata: Seq<u8>,
}

/// The rules for one asset.
#[verifier::ext_equal]
pub struct AssetRuleView {
    pub asset: Symbol,
    pub blocked_jurisdictions: Seq<u32>,
    pub daily_limit_usd: i128,
    pub require_travel_rule: bool,
    pub enabled: bool,
}

/// The state of the contract.
#[verifier::ext_equal]
pub struct ComplianceState {
    pub admin: Option<Address>,
    pub dao: Option<Address>,
    pub verifier: Option<Address>,
    pub verifier_count: u32,
    pub travel_rule_count: u64,
    pub kyc: Map<Address, KycAttestationView>,
    pub records: Map<Address, ComplianceRecord>,
    pub daily_volumes: Map<Address, DailyVolume>,
    pub asset_rules: Map<Symbol, AssetRuleView>,
    pub verifiers: Set<Address>,
    pub verifier_list: Map<u32, Address>,
    pub blocked: Set<u32>,
    pub frozen: Set<Address>,
    pub whitelist: Set<Address>,
    pub providers: Map<(Address, u32), Address>,
    pub provider_counts: Map<Address, u32>,
    pub signers: Map<Address, Address>,
}

/// The member states of the European Union, by their numeric country codes.
pub open spec fn eu_codes() -> Seq<u32> {
    seq![
        40u32, 56, 100, 191, 196, 203, 208, 233, 246, 250, 276, 300, 348, 372, 380, 428, 440, 442,
        470, 528, 616, 620, 642, 703, 705, 724, 752,
    ]
}

/// Countries under comprehensive sanctions or of high risk, by their numeric
/// country codes.
pub open spec fn sanctioned_codes() -> Seq<u32> {
    seq![192u32, 364, 408, 760, 643, 112, 104, 862, 729, 728]
}

pub open spec fn us_or_eu(code: u32) -> bool {
    code == US_COUNTRY_CODE || eu_codes().contains(code)
}

/// A set of countries with the United States and the European Union.
pub open spec fn with_us_and_eu(blocked: Set<u32>) -> Set<u32> {
    blocked.insert(US_COUNTRY_CODE).union(eu_codes().to_set())
}

/// A set of countries with those under sanctions.
pub open spec fn with_sanctioned(blocked: Set<u32>) -> Set<u32> {
    blocked.union(sanctioned_codes().to_set())
}

/// The number that stands for a status in events.
pub open spec fn code(status: ComplianceStatus) -> u32 {
    match status {
        ComplianceStatus::Unknown => 0,
        ComplianceStatus::Pending => 1,
        ComplianceStatus::Verified => 2,
        ComplianceStatus::Suspended => 3,
        ComplianceStatus::Sanctioned => 4,
        ComplianceStatus::Expired => 5,
    }
}

/// A symbol of at most sixteen characters.
pub open spec fn short(head: u128) -> Symbol {
    Symbol { head, tail: 0 }
}

/// The first second of the day that a time falls on.
pub open spec fn day_start(timestamp: u64) -> u64 {
    (timestamp / DAY * DAY) as u64
}

impl ComplianceRecord {
    /// The record after an attestation. A suspension or a sanction stays:
    /// only the admin lifts those.
    pub open spec fn attested(
        self,
        provider: Address,
        jurisdiction: u32,
        expires_at: u64,
        now: u64,
    ) -> ComplianceRecord {
        let held = self.status == ComplianceStatus::Suspended || self.status
            == ComplianceStatus::Sanctioned;
        ComplianceRecord {
            status: if held {
                self.status
            } else {
                ComplianceStatus::Verified
            },
            jurisdiction,
            expires_at,
            provider,
            updated_at: now,
            reason: if held {
                self.reason
            } else {
                short(ATTEST)
            },
        }
    }

    /// The attestation has lapsed.
    pub open spec fn lapsed(self, now: u64) -> bool {
        self.expires_at != 0 && self.expires_at < now
    }
}

impl KycAttestationView {
    /// The attestation has lapsed.
    pub open spec fn lapsed(self, now: u64) -> bool {
        self.expires_at > 0 && self.expires_at < now
    }
}

impl ComplianceState {
    /// The contract before it is set up.
    pub open spec fn blank() -> ComplianceState {
        ComplianceState {
            admin: None,
            dao: None,
            verifier: None,
            verifier_count: 0,
            travel_rule_count: 0,
            kyc: Map::empty(),
            records: Map::empty(),
            daily_volumes: Map::empty(),
            asset_rules: Map::empty(),
            verifiers: Set::empty(),
            verifier_list: Map::empty(),
            blocked: Set::empty(),
            frozen: Set::empty(),
            whitelist: Set::empty(),
            providers: Map::empty(),
            provider_counts: Map::empty(),
            signers: Map::empty(),
        }
    }

    pub open spec fn admin_error(self, caller: Address) -> Option<Error> {
        match self.admin {
            None => Some(Error::NotInitialised),
            Some(admin) => if caller == admin {
                None
            } else {
                Some(Error::AdminOnly)
            },
        }
    }

    pub open spec fn dao_error(self, caller: Address) -> Option<Error> {
        match self.dao {
            None => Some(Error::NotInitialised),
            Some(dao) => if caller == dao {
                None
            } else {
                Some(Error::DaoOnly)
            },
        }
    }

    pub open spec fn initialize(self, admin: Address, dao: Address) -> Result<
        (Self, Seq<Effect>),
        Error,
    > {
        if self.admin is Some {
            Err(Error::AlreadyInitialised)
        } else {
            Ok(
                (
                    ComplianceState {
                        admin: Some(admin),
                        dao: Some(dao),
                        verifier_count: 0,
                        travel_rule_count: 0,
                        blocked: with_sanctioned(with_us_and_eu(self.blocked)),
                        ..self
                    },
                    seq![Effect::RequireAuth(admin)],
                ),
            )
        }
    }

    // ── Verifiers ─────────────────────────────────────────────────

    /// A verifier is listed, authorised still or not.
    pub open spec fn is_listed(self, verifier: Address) -> bool {
        exists|i: u32| self.stands_at(i, verifier)
    }

    /// Whether a verifier is listed depends on the list alone.
    pub proof fn lemma_same_list(self, other: Self, verifier: Address)
        requires
            other.verifier_list == self.verifier_list,
            other.verifier_count == self.verifier_count,
        ensures
            other.is_listed(verifier) == self.is_listed(verifier),
    {
        if self.is_listed(verifier) {
            let i = choose|i: u32| self.stands_at(i, verifier);
            assert(other.stands_at(i, verifier));
        }
        if other.is_listed(verifier) {
            let i = choose|i: u32| other.stands_at(i, verifier);
            assert(self.stands_at(i, verifier));
        }
    }

    /// The state with one more verifier. One that was listed before takes its
    /// place again; a new one is listed behind the others.
    pub open spec fn with_verifier(self, verifier: Address) -> Result<Self, Error> {
        if self.is_listed(verifier) {
            Ok(ComplianceState { verifiers: self.verifiers.insert(verifier), ..self })
        } else if self.verifier_count == u32::MAX {
            Err(Error::Arithmetic)
        } else {
            Ok(
                ComplianceState {
                    verifiers: self.verifiers.insert(verifier),
                    verifier_list: self.verifier_list.insert(self.verifier_count, verifier),
                    verifier_count: (self.verifier_count + 1) as u32,
                    ..self
                },
            )
        }
    }

    /// The state without the verifier that another one replaces.
    pub open spec fn without_replaced(self, verifier: Address) -> Self {
        match self.verifier {
            Some(before) => if before != verifier {
                ComplianceState { verifiers: self.verifiers.remove(before), ..self }
            } else {
                self
            },
            None => self,
        }
    }

    pub open spec fn set_verifier(self, dao: Address, verifier: Address) -> Result<
        (Self, Seq<Effect>),
        Error,
    > {
        match self.dao_error(dao) {
            Some(e) => Err(e),
            None => match self.without_replaced(verifier).with_verifier(verifier) {
                Err(e) => Err(e),
                Ok(next) => Ok(
                    (
                        ComplianceState { verifier: Some(verifier), ..next },
                        seq![
                            Effect::RequireAuth(dao),
                            Effect::VerifierChanged(VerifierChangedEvent { dao, verifier }),
                        ],
                    ),
                ),
            },
        }
    }

    pub open spec fn add_verifier(self, dao: Address, verifier: Address) -> Result<
        (Self, Seq<Effect>),
        Error,
    > {
        match self.dao_error(dao) {
            Some(e) => Err(e),
            None => match self.with_verifier(verifier) {
                Err(e) => Err(e),
                Ok(next) => Ok((next, seq![Effect::RequireAuth(dao)])),
            },
        }
    }

    pub open spec fn remove_verifier(self, dao: Address, verifier: Address) -> Result<
        (Self, Seq<Effect>),
        Error,
    > {
        match self.dao_error(dao) {
            Some(e) => Err(e),
            None => Ok(
                (
                    ComplianceState { verifiers: self.verifiers.remove(verifier), ..self },
                    seq![Effect::RequireAuth(dao)],
                ),
            ),
        }
    }

    /// The verifiers among the first `n` that were listed.
    pub open spec fn listed(self, n: nat) -> Seq<Address>
        decreases n,
    {
        if n == 0 {
            Seq::empty()
        } else {
            let before = self.listed((n - 1) as nat);
            let place = (n - 1) as u32;
            if self.verifier_list.contains_key(place) && self.verifiers.contains(
                self.verifier_list[place],
            ) {
                before.push(self.verifier_list[place])
            } else {
                before
            }
        }
    }

    // ── Attestations ──────────────────────────────────────────────

    /// The record of an address; that of an unknown one where there is none.
    pub open spec fn record(self, address: Address) -> ComplianceRecord {
        if self.records.contains_key(address) {
            self.records[address]
        } else {
            ComplianceRecord {
                status: ComplianceStatus::Unknown,
                jurisdiction: 0,
                expires_at: 0,
                provider: address,
                updated_at: 0,
                reason: short(NONE),
            }
        }
    }

    /// How many providers attested an address.
    pub open spec fn provider_count(self, subject: Address) -> u32 {
        if self.provider_counts.contains_key(subject) {
            self.provider_counts[subject]
        } else {
            0
        }
    }

    /// The first `n` providers that attested an address.
    pub open spec fn providers_of(self, subject: Address, n: nat) -> Seq<Address>
        decreases n,
    {
        if n == 0 {
            Seq::empty()
        } else {
            let before = self.providers_of(subject, (n - 1) as nat);
            let key = (subject, (n - 1) as u32);
            if self.providers.contains_key(key) {
                before.push(self.providers[key])
            } else {
                before
            }
        }
    }

    /// A provider is listed for an address.
    pub open spec fn has_provider(self, subject: Address, provider: Address) -> bool {
        exists|i: u32|
            i < self.provider_count(subject) && #[trigger] self.providers.contains_key((subject, i))
                && self.providers[(subject, i)] == provider
    }

    /// The state with a provider listed for an address, once.
    pub open spec fn with_provider(self, subject: Address, provider: Address) -> Result<
        Self,
        Error,
    > {
        let count = self.provider_count(subject);
        if self.has_provider(subject, provider) {
            Ok(self)
        } else if count == u32::MAX {
            Err(Error::Arithmetic)
        } else {
            Ok(
                ComplianceState {
                    providers: self.providers.insert((subject, count), provider),
                    provider_counts: self.provider_counts.insert(subject, (count + 1) as u32),
                    ..self
                },
            )
        }
    }

    /// The state with an attestation of an address.
    pub open spec fn with_attestation(
        self,
        env: Context,
        provider: Address,
        subject: Address,
        jurisdiction: u32,
        expires_at: u64,
        metadata: Seq<u8>,
    ) -> Result<Self, Error> {
        (ComplianceState {
            kyc: self.kyc.insert(
                subject,
                KycAttestationView {
                    address: subject,
                    verifier: provider,
                    jurisdiction,
                    issued_at: env.timestamp,
                    expires_at,
                    metadata,
                },
            ),
            records: self.records.insert(
                subject,
                self.record(subject).attested(provider, jurisdiction, expires_at, env.timestamp),
            ),
            ..self
        }).with_provider(subject, provider)
    }

    pub open spec fn attest(
        self,
        env: Context,
        verifier: Address,
        subject: Address,
        jurisdiction: u32,
        expires_at: u64,
        metadata: Seq<u8>,
    ) -> Result<(Self, Seq<Effect>), Error> {
        if !self.verifiers.contains(verifier) {
            Err(Error::NotAuthorisedVerifier)
        } else if self.blocked.contains(jurisdiction) {
            Err(Error::JurisdictionBlocked)
        } else {
            match self.with_attestation(
                env,
                verifier,
                subject,
                jurisdiction,
                expires_at,
                metadata,
            ) {
                Err(e) => Err(e),
                Ok(next) => Ok(
                    (
                        next,
                        seq![
                            Effect::RequireAuth(verifier),
                            Effect::Attest(
                                AttestEvent { verifier, subject, jurisdiction_allowed: true },
                            ),
                        ],
                    ),
                ),
            }
        }
    }

    /// The record of an address after its attestation was revoked. A sanction
    /// stays, and so does a suspension.
    pub open spec fn revoked(self, env: Context, verifier: Address, subject: Address) -> Map<
        Address,
        ComplianceRecord,
    > {
        let rec = self.record(subject);
        if rec.provider == verifier && rec.status != ComplianceStatus::Sanctioned && rec.status
            != ComplianceStatus::Suspended {
            self.records.insert(
                subject,
                ComplianceRecord {
                    status: ComplianceStatus::Unknown,
                    updated_at: env.timestamp,
                    reason: short(REVOKED),
                    ..rec
                },
            )
        } else {
            self.records
        }
    }

    pub open spec fn revoke(self, env: Context, verifier: Address, subject: Address) -> Result<
        (Self, Seq<Effect>),
        Error,
    > {
        if !self.kyc.contains_key(subject) {
            Err(Error::NoAttestation)
        } else if self.kyc[subject].verifier != verifier {
            Err(Error::NotOwnAttestation)
        } else {
            Ok(
                (
                    ComplianceState {
                        kyc: self.kyc.remove(subject),
                        records: self.revoked(env, verifier, subject),
                        ..self
                    },
                    seq![
                        Effect::RequireAuth(verifier),
                        Effect::Revoke(RevokeEvent { verifier, subject }),
                    ],
                ),
            )
        }
    }

    pub open spec fn register_signer(self, provider: Address, signer: Address) -> Result<
        (Self, Seq<Effect>),
        Error,
    > {
        if !self.verifiers.contains(provider) {
            Err(Error::ProviderNotVerifier)
        } else {
            Ok(
                (
                    ComplianceState { signers: self.signers.insert(signer, provider), ..self },
                    seq![
                        Effect::RequireAuth(provider),
                        Effect::ProviderRegistered(ProviderRegisteredEvent { provider, signer }),
                    ],
                ),
            )
        }
    }

    pub open spec fn submit_attestation(
        self,
        env: Context,
        subject: Address,
        signer: Address,
        jurisdiction: u32,
        expires_at: u64,
    ) -> Result<(Self, Seq<Effect>), Error> {
        let provider = self.signers[signer];
        if !self.signers.contains_key(signer) {
            Err(Error::SignerNotRegistered)
        } else if !self.verifiers.contains(provider) {
            Err(Error::ProviderNoLongerAuthorised)
        } else if self.blocked.contains(jurisdiction) {
            Err(Error::JurisdictionBlocked)
        } else {
            match self.with_attestation(
                env,
                provider,
                subject,
                jurisdiction,
                expires_at,
                Seq::empty(),
            ) {
                Err(e) => Err(e),
                Ok(next) => Ok(
                    (
                        next,
                        seq![
                            Effect::RequireAuth(subject),
                            Effect::RequireAuth(provider),
                            Effect::SubmitAttest(
                                SubmitAttestEvent { subject, provider, jurisdiction_allowed: true },
                            ),
                        ],
                    ),
                ),
            }
        }
    }

    // ── Rules ─────────────────────────────────────────────────────

    pub open spec fn set_asset_rule(
        self,
        dao: Address,
        asset: Symbol,
        blocked_juris: Seq<u32>,
        daily_limit: i128,
        travel_rule: bool,
    ) -> Result<(Self, Seq<Effect>), Error> {
        match self.dao_error(dao) {
            Some(e) => Err(e),
            None => Ok(
                (
                    ComplianceState {
                        asset_rules: self.asset_rules.insert(
                            asset,
                            AssetRuleView {
                                asset,
                                blocked_jurisdictions: blocked_juris,
                                daily_limit_usd: daily_limit,
                                require_travel_rule: travel_rule,
                                enabled: true,
                            },
                        ),
                        ..self
                    },
                    seq![Effect::RequireAuth(dao)],
                ),
            ),
        }
    }

    pub open spec fn block_jurisdiction(self, dao: Address, country_code: u32) -> Result<
        (Self, Seq<Effect>),
        Error,
    > {
        match self.dao_error(dao) {
            Some(e) => Err(e),
            None => Ok(
                (
                    ComplianceState { blocked: self.blocked.insert(country_code), ..self },
                    seq![
                        Effect::RequireAuth(dao),
                        Effect::BlockJurisdiction(
                            BlockJurisdictionEvent { action: short(JUR), country_code },
                        ),
                    ],
                ),
            ),
        }
    }

    pub open spec fn unblock_jurisdiction(self, dao: Address, country_code: u32) -> Result<
        (Self, Seq<Effect>),
        Error,
    > {
        match self.dao_error(dao) {
            Some(e) => Err(e),
            None => Ok(
                (
                    ComplianceState { blocked: self.blocked.remove(country_code), ..self },
                    seq![Effect::RequireAuth(dao)],
                ),
            ),
        }
    }

    pub open spec fn block_us_and_eu(self, dao: Address) -> Result<(Self, Seq<Effect>), Error> {
        match self.dao_error(dao) {
            Some(e) => Err(e),
            None => Ok(
                (
                    ComplianceState { blocked: with_us_and_eu(self.blocked), ..self },
                    seq![Effect::RequireAuth(dao)],
                ),
            ),
        }
    }

    pub open spec fn block_sanctioned_countries(self, dao: Address) -> Result<
        (Self, Seq<Effect>),
        Error,
    > {
        match self.dao_error(dao) {
            Some(e) => Err(e),
            None => Ok(
                (
                    ComplianceState { blocked: with_sanctioned(self.blocked), ..self },
                    seq![Effect::RequireAuth(dao)],
                ),
            ),
        }
    }

    // ── Accounts ──────────────────────────────────────────────────

    pub open spec fn freeze_account(self, admin: Address, account: Address, reason: Symbol) -> Result<
        (Self, Seq<Effect>),
        Error,
    > {
        match self.admin_error(admin) {
            Some(e) => Err(e),
            None => Ok(
                (
                    ComplianceState { frozen: self.frozen.insert(account), ..self },
                    seq![
                        Effect::RequireAuth(admin),
                        Effect::FreezeAccount(FreezeAccountEvent { account, reason }),
                    ],
                ),
            ),
        }
    }

    pub open spec fn unfreeze_account(self, admin: Address, account: Address) -> Result<
        (Self, Seq<Effect>),
        Error,
    > {
        match self.admin_error(admin) {
            Some(e) => Err(e),
            None => Ok(
                (
                    ComplianceState { frozen: self.frozen.remove(account), ..self },
                    seq![
                        Effect::RequireAuth(admin),
                        Effect::FreezeAccount(FreezeAccountEvent { account, reason: short(UNFRZ) }),
                    ],
                ),
            ),
        }
    }

    pub open spec fn set_whitelist(self, admin: Address, contract: Address, whitelisted: bool) -> Result<
        (Self, Seq<Effect>),
        Error,
    > {
        match self.admin_error(admin) {
            Some(e) => Err(e),
            None => Ok(
                (
                    ComplianceState {
                        whitelist: if whitelisted {
                            self.whitelist.insert(contract)
                        } else {
                            self.whitelist.remove(contract)
                        },
                        ..self
                    },
                    seq![Effect::RequireAuth(admin)],
                ),
            ),
        }
    }

    /// The state with another status of an account, and the events of that.
    pub open spec fn with_status(
        self,
        env: Context,
        admin: Address,
        account: Address,
        status: ComplianceStatus,
        reason: Symbol,
    ) -> (Self, Seq<Effect>) {
        let rec = self.record(account);
        (
            ComplianceState {
                records: self.records.insert(
                    account,
                    ComplianceRecord { status, updated_at: env.timestamp, reason, ..rec },
                ),
                ..self
            },
            seq![
                Effect::RequireAuth(admin),
                Effect::StatusChange(
                    StatusChangeEvent {
                        account,
                        old_status: code(rec.status),
                        new_status: code(status),
                        reason,
                    },
                ),
            ],
        )
    }

    pub open spec fn suspend_account(
        self,
        env: Context,
        admin: Address,
        account: Address,
        reason: Symbol,
    ) -> Result<(Self, Seq<Effect>), Error> {
        match self.admin_error(admin) {
            Some(e) => Err(e),
            None => Ok(
                self.with_status(env, admin, account, ComplianceStatus::Suspended, reason),
            ),
        }
    }

    pub open spec fn unsuspend_account(self, env: Context, admin: Address, account: Address) -> Result<
        (Self, Seq<Effect>),
        Error,
    > {
        match self.admin_error(admin) {
            Some(e) => Err(e),
            None => if self.record(account).status != ComplianceStatus::Suspended {
                Err(Error::NotSuspended)
            } else {
                Ok(
                    self.with_status(
                        env,
                        admin,
                        account,
                        if self.kyc.contains_key(account) {
                            ComplianceStatus::Verified
                        } else {
                            ComplianceStatus::Unknown
                        },
                        short(UNSUSPEND),
                    ),
                )
            },
        }
    }

    pub open spec fn sanction_account(
        self,
        env: Context,
        admin: Address,
        account: Address,
        reason: Symbol,
    ) -> Result<(Self, Seq<Effect>), Error> {
        match self.admin_error(admin) {
            Some(e) => Err(e),
            None => {
                let (next, effects) = self.with_status(
                    env,
                    admin,
                    account,
                    ComplianceStatus::Sanctioned,
                    reason,
                );
                Ok((ComplianceState { frozen: next.frozen.insert(account), ..next }, effects))
            },
        }
    }

    pub open spec fn upgrade(self, new_wasm_hash: WasmHash) -> Result<(Self, Seq<Effect>), Error> {
        match self.dao {
            None => Err(Error::NotInitialised),
            Some(dao) => Ok(
                (self, seq![Effect::RequireAuth(dao), Effect::UpdateWasm(new_wasm_hash)]),
            ),
        }
    }

    // ── Checks ────────────────────────────────────────────────────

    /// What an address moved on the day, before this transfer.
    pub open spec fn volume(self, env: Context, address: Address) -> i128 {
        if self.daily_volumes.contains_key(address) && self.daily_volumes[address].date_ts
            == day_start(env.timestamp) {
            self.daily_volumes[address].volume
        } else {
            0
        }
    }

    /// The state with a transfer counted against a daily limit.
    pub open spec fn with_volume(self, env: Context, user: Address, amount: i128, limit: i128) -> Result<
        Self,
        Error,
    > {
        let volume = self.volume(env, user) + amount;
        if !arith::fits(volume) {
            Err(Error::Arithmetic)
        } else if volume > limit {
            Err(Error::DailyLimitExceeded)
        } else {
            Ok(
                ComplianceState {
                    daily_volumes: self.daily_volumes.insert(
                        user,
                        DailyVolume {
                            date_ts: day_start(env.timestamp),
                            volume: volume as i128,
                        },
                    ),
                    ..self
                },
            )
        }
    }

    /// Why a transfer is refused, whatever the asset.
    pub open spec fn parties_error(self, env: Context, from: Address, to: Address) -> Option<Error> {
        if self.frozen.contains(from) {
            Some(Error::SenderFrozen)
        } else if self.frozen.contains(to) {
            Some(Error::RecipientFrozen)
        } else if self.record(from).status == ComplianceStatus::Sanctioned {
            Some(Error::SenderSanctioned)
        } else if self.record(to).status == ComplianceStatus::Sanctioned {
            Some(Error::RecipientSanctioned)
        } else if self.kyc.contains_key(from) && self.kyc[from].lapsed(env.timestamp) {
            Some(Error::SenderExpired)
        } else if self.kyc.contains_key(to) && self.kyc[to].lapsed(env.timestamp) {
            Some(Error::RecipientExpired)
        } else {
            None
        }
    }

    /// Why a rule refuses a transfer.
    pub open spec fn rule_error(self, rule: AssetRuleView, from: Address, to: Address) -> Option<
        Error,
    > {
        if !self.kyc.contains_key(from) {
            Some(Error::SenderKycRequired)
        } else if !self.kyc.contains_key(to) {
            Some(Error::RecipientKycRequired)
        } else if rule.blocked_jurisdictions.contains(self.kyc[from].jurisdiction) {
            Some(Error::SenderJurisdictionBlockedForAsset)
        } else if self.blocked.contains(self.kyc[from].jurisdiction) {
            Some(Error::SenderJurisdictionBlocked)
        } else if rule.blocked_jurisdictions.contains(self.kyc[to].jurisdiction) {
            Some(Error::RecipientJurisdictionBlockedForAsset)
        } else if self.blocked.contains(self.kyc[to].jurisdiction) {
            Some(Error::RecipientJurisdictionBlocked)
        } else {
            None
        }
    }

    /// What a rule lets an address move in a day.
    pub open spec fn limit(rule: AssetRuleView) -> i128 {
        if rule.daily_limit_usd > 0 {
            rule.daily_limit_usd
        } else {
            DEFAULT_DAILY_LIMIT
        }
    }

    /// A transfer under an enabled rule.
    pub open spec fn transfer_under(
        self,
        env: Context,
        rule: AssetRuleView,
        from: Address,
        to: Address,
        asset: Symbol,
        amount: i128,
    ) -> Result<(Self, bool, Seq<Effect>), Error> {
        match self.rule_error(rule, from, to) {
            Some(e) => Err(e),
            None => match self.with_volume(env, from, amount, ComplianceState::limit(rule)) {
                Err(e) => Err(e),
                Ok(next) => if !rule.require_travel_rule || amount < TRAVEL_RULE_THRESHOLD {
                    Ok((next, true, Seq::empty()))
                } else if self.travel_rule_count == u64::MAX {
                    Err(Error::Arithmetic)
                } else {
                    Ok(
                        (
                            ComplianceState {
                                travel_rule_count: (self.travel_rule_count + 1) as u64,
                                ..next
                            },
                            true,
                            seq![
                                Effect::TravelRule(
                                    TravelRuleEvent {
                                        from,
                                        to,
                                        asset,
                                        amount,
                                        sequence: self.travel_rule_count,
                                    },
                                ),
                            ],
                        ),
                    )
                },
            },
        }
    }

    pub open spec fn assert_transfer_allowed(
        self,
        env: Context,
        caller: Address,
        from: Address,
        to: Address,
        asset: Symbol,
        amount: i128,
    ) -> Result<(Self, bool, Seq<Effect>), Error> {
        if self.whitelist.contains(caller) && self.whitelist.contains(from)
            && self.whitelist.contains(to) {
            Ok((self, true, Seq::empty()))
        } else {
            match self.parties_error(env, from, to) {
                Some(e) => Err(e),
                None => if self.asset_rules.contains_key(asset) && self.asset_rules[asset].enabled {
                    self.transfer_under(env, self.asset_rules[asset], from, to, asset, amount)
                } else {
                    Ok((self, true, Seq::empty()))
                },
            }
        }
    }

    pub open spec fn is_transfer_allowed(
        self,
        env: Context,
        from: Address,
        to: Address,
        asset: Symbol,
    ) -> bool {
        &&& !self.frozen.contains(from)
        &&& !self.frozen.contains(to)
        &&& !(self.kyc.contains_key(from) && self.kyc[from].lapsed(env.timestamp))
        &&& !(self.asset_rules.contains_key(asset) && self.asset_rules[asset].enabled
            && !self.kyc.contains_key(from))
    }

    /// Why a user may not use the protocol.
    pub open spec fn user_error(self, env: Context, user: Address) -> Option<Error> {
        let rec = self.record(user);
        if self.frozen.contains(user) {
            Some(Error::AccountFrozen)
        } else if rec.status == ComplianceStatus::Unknown {
            Some(Error::KycRequired)
        } else if rec.status == ComplianceStatus::Pending {
            Some(Error::KycPending)
        } else if rec.status == ComplianceStatus::Suspended {
            Some(Error::AccountSuspended)
        } else if rec.status == ComplianceStatus::Sanctioned {
            Some(Error::AccountSanctioned)
        } else if rec.status == ComplianceStatus::Expired || rec.lapsed(env.timestamp) {
            Some(Error::KycExpired)
        } else if self.blocked.contains(rec.jurisdiction) {
            Some(Error::UnavailableInJurisdiction)
        } else {
            None
        }
    }

    pub open spec fn assert_user_compliant(self, env: Context, caller: Address, user: Address) -> Result<
        bool,
        Error,
    > {
        if self.whitelist.contains(caller) && self.whitelist.contains(user) {
            Ok(true)
        } else {
            match self.user_error(env, user) {
                Some(e) => Err(e),
                None => Ok(true),
            }
        }
    }

    /// A user may use the protocol: verified, neither frozen nor lapsed, and
    /// in no blocked country.
    pub open spec fn is_user_compliant(self, env: Context, user: Address) -> bool {
        let rec = self.record(user);
        &&& !self.frozen.contains(user)
        &&& rec.status == ComplianceStatus::Verified
        &&& !rec.lapsed(env.timestamp)
        &&& !self.blocked.contains(rec.jurisdiction)
    }

    pub open spec fn get_compliance_status(self, user: Address) -> ComplianceView {
        let rec = self.record(user);
        ComplianceView {
            status: rec.status,
            jurisdiction_allowed: self.provider_count(user) > 0 && rec.status
                != ComplianceStatus::Unknown && !self.blocked.contains(rec.jurisdiction),
            expires_at: rec.expires_at,
            provider: rec.provider,
            updated_at: rec.updated_at,
            reason: rec.reason,
        }
    }

    pub open spec fn is_jurisdiction_ok(self, user: Address) -> bool {
        self.kyc.contains_key(user) && !self.blocked.contains(self.kyc[user].jurisdiction)
    }
}

// ── What always holds ─────────────────────────────────────────────

impl ComplianceState {
    /// A verifier stands at this place of the list.
    pub open spec fn stands_at(self, place: u32, verifier: Address) -> bool {
        &&& place < self.verifier_count
        &&& self.verifier_list.contains_key(place)
        &&& self.verifier_list[place] == verifier
    }

    /// The record of an address agrees with the attestation on file, and says
    /// that the address is verified only where there is one.
    pub open spec fn record_sound(self, a: Address) -> bool {
        &&& self.record(a).status == ComplianceStatus::Verified ==> self.kyc.contains_key(a)
        &&& self.kyc.contains_key(a) ==> {
            &&& self.records.contains_key(a)
            &&& self.kyc[a].address == a
            &&& self.kyc[a].verifier == self.records[a].provider
            &&& self.kyc[a].jurisdiction == self.records[a].jurisdiction
            &&& self.kyc[a].expires_at == self.records[a].expires_at
        }
    }

    /// What holds of the contract at all times: every verifier is listed, none
    /// twice, the providers of an address stand at their places, each once, and
    /// nobody is verified without an attestation.
    pub open spec fn sound(self) -> bool {
        &&& self.dao is None ==> self.verifiers.is_empty()
        &&& self.admin is None ==> self.dao is None
        &&& forall|v: Address| #[trigger]
            self.verifiers.contains(v) ==> exists|i: u32| self.stands_at(i, v)
        &&& forall|i: u32, j: u32|
            i < j < self.verifier_count ==> #[trigger] self.verifier_list[i]
                != #[trigger] self.verifier_list[j]
        &&& forall|i: u32|
            i < self.verifier_count ==> #[trigger] self.verifier_list.contains_key(i)
        &&& forall|a: Address, i: u32|
            i < self.provider_count(a) ==> #[trigger] self.providers.contains_key((a, i))
        &&& forall|a: Address, i: u32, j: u32|
            i < j < self.provider_count(a) ==> #[trigger] self.providers[(a, i)]
                != #[trigger] self.providers[(a, j)]
        &&& forall|a: Address| #[trigger] self.record_sound(a)
    }
}

/// A call that can change the contract.
pub enum Call {
    Initialize { admin: Address, dao: Address },
    SetVerifier { dao: Address, verifier: Address },
    AddVerifier { dao: Address, verifier: Address },
    RemoveVerifier { dao: Address, verifier: Address },
    Attest {
        verifier: Address,
        subject: Address,
        jurisdiction: u32,
        expires_at: u64,
        metadata: Seq<u8>,
    },
    Revoke { verifier: Address, subject: Address },
    RegisterSigner { provider: Address, signer: Address },
    SubmitAttestation { subject: Address, signer: Address, jurisdiction: u32, expires_at: u64 },
    SetAssetRule {
        dao: Address,
        asset: Symbol,
        blocked_juris: Seq<u32>,
        daily_limit: i128,
        travel_rule: bool,
    },
    BlockJurisdiction { dao: Address, country_code: u32 },
    UnblockJurisdiction { dao: Address, country_code: u32 },
    BlockUsAndEu { dao: Address },
    BlockSanctionedCountries { dao: Address },
    FreezeAccount { admin: Address, account: Address, reason: Symbol },
    UnfreezeAccount { admin: Address, account: Address },
    SetWhitelist { admin: Address, contract: Address, whitelisted: bool },
    SuspendAccount { admin: Address, account: Address, reason: Symbol },
    UnsuspendAccount { admin: Address, account: Address },
    SanctionAccount { admin: Address, account: Address, reason: Symbol },
    AssertTransferAllowed {
        caller: Address,
        from: Address,
        to: Address,
        asset: Symbol,
        amount: i128,
    },
}

impl ComplianceState {
    /// The contract after a call.
    pub open spec fn after(self, env: Context, call: Call) -> ComplianceState {
        match call {
            Call::Initialize { admin, dao } => error::next(self, self.initialize(admin, dao)),
            Call::SetVerifier { dao, verifier } => error::next(
                self,
                self.set_verifier(dao, verifier),
            ),
            Call::AddVerifier { dao, verifier } => error::next(
                self,
                self.add_verifier(dao, verifier),
            ),
            Call::RemoveVerifier { dao, verifier } => error::next(
                self,
                self.remove_verifier(dao, verifier),
            ),
            Call::Attest { verifier, subject, jurisdiction, expires_at, metadata } => error::next(
                self,
                self.attest(env, verifier, subject, jurisdiction, expires_at, metadata),
            ),
            Call::Revoke { verifier, subject } => error::next(
                self,
                self.revoke(env, verifier, subject),
            ),
            Call::RegisterSigner { provider, signer } => error::next(
                self,
                self.register_signer(provider, signer),
            ),
            Call::SubmitAttestation { subject, signer, jurisdiction, expires_at } => error::next(
                self,
                self.submit_attestation(env, subject, signer, jurisdiction, expires_at),
            ),
            Call::SetAssetRule { dao, asset, blocked_juris, daily_limit, travel_rule } =>
            error::next(
                self,
                self.set_asset_rule(dao, asset, blocked_juris, daily_limit, travel_rule),
            ),
            Call::BlockJurisdiction { dao, country_code } => error::next(
                self,
                self.block_jurisdiction(dao, country_code),
            ),
            Call::UnblockJurisdiction { dao, country_code } => error::next(
                self,
                self.unblock_jurisdiction(dao, country_code),
            ),
            Call::BlockUsAndEu { dao } => error::next(self, self.block_us_and_eu(dao)),
            Call::BlockSanctionedCountries { dao } => error::next(
                self,
                self.block_sanctioned_countries(dao),
            ),
            Call::FreezeAccount { admin, account, reason } => error::next(
                self,
                self.freeze_account(admin, account, reason),
            ),
            Call::UnfreezeAccount { admin, account } => error::next(
                self,
                self.unfreeze_account(admin, account),
            ),
            Call::SetWhitelist { admin, contract, whitelisted } => error::next(
                self,
                self.set_whitelist(admin, contract, whitelisted),
            ),
            Call::SuspendAccount { admin, account, reason } => error::next(
                self,
                self.suspend_account(env, admin, account, reason),
            ),
            Call::UnsuspendAccount { admin, account } => error::next(
                self,
                self.unsuspend_account(env, admin, account),
            ),
            Call::SanctionAccount { admin, account, reason } => error::next(
                self,
                self.sanction_account(env, admin, account, reason),
            ),
            Call::AssertTransferAllowed { caller, from, to, asset, amount } => error::next_on(
                self,
                self.assert_transfer_allowed(env, caller, from, to, asset, amount),
            ),
        }
    }
}

} // verus!
