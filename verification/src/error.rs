//! Why a call is refused.
use vstd::prelude::*;

verus! {

/// The reasons for which a call is refused. A refused call changes nothing.
#[derive(Clone, Copy, PartialEq, Eq, Structural, Debug)]
pub enum Error {
    // ── Any contract ──────────────────────────────────────────────
    /// An amount left the range of its type, or was divided by zero.
    Arithmetic,
    AlreadyInitialised,
    /// A setting that the call needs was never made.
    NotInitialised,
    AdminOnly,
    DaoOnly,
    AmountNotPositive,
    PoolPaused,
    // ── Token ─────────────────────────────────────────────────────
    TokenPaused,
    AccountFrozen,
    AmountNegative,
    AllowanceExceeded,
    ExpirationInPast,
    NotFrozen,
    InsufficientBalance,
    // ── Oracle ────────────────────────────────────────────────────
    MaxProvidersReached,
    AlreadyProvider,
    NotAProvider,
    NotAuthorisedProvider,
    PriceNotPositive,
    CircuitBreaker,
    NoPriceFeed,
    NoFeed,
    PriceStale,
    TwapStale,
    InsufficientObservations,
    LengthMismatch,
    // ── Stability pool ────────────────────────────────────────────
    NoDeposit,
    NothingToWithdraw,
    OnlyEngine,
    InsufficientPoolDepth,
    // ── Liquidity pool ────────────────────────────────────────────
    AdminOrDaoOnly,
    InvalidFeeTier,
    PoolExists,
    PoolNotFound,
    AmountsNotPositive,
    InitialLiquidityTooSmall,
    SharesBelowMinimum,
    NoPosition,
    InsufficientShares,
    TokenABelowMinimum,
    TokenBBelowMinimum,
    AmountInNotPositive,
    PriceImpactTooHigh,
    OutputBelowMinimum,
    ProtocolFeeTooHigh,
    ProtocolFeeNegative,
    // ── Synthetic engine ──────────────────────────────────────────
    MinRatioTooLow,
    PenaltyTooHigh,
    CollateralNotWhitelisted,
    AssetNotRegistered,
    AssetNotConfigured,
    AssetDisabled,
    VaultAlreadyOpen,
    VaultNotFound,
    CollateralNotPositive,
    DebtCeilingExceeded,
    InsufficientCollateral,
    RepayNotPositive,
    NotUndercollateralised,
    CollateralRatioTooLow,
    ProtocolPaused,
    // ── Compliance registry ───────────────────────────────────────
    NotAuthorisedVerifier,
    JurisdictionBlocked,
    NoAttestation,
    NotOwnAttestation,
    SenderFrozen,
    RecipientFrozen,
    SenderSanctioned,
    RecipientSanctioned,
    SenderExpired,
    RecipientExpired,
    SenderKycRequired,
    RecipientKycRequired,
    SenderJurisdictionBlockedForAsset,
    SenderJurisdictionBlocked,
    RecipientJurisdictionBlockedForAsset,
    RecipientJurisdictionBlocked,
    DailyLimitExceeded,
    KycRequired,
    KycPending,
    AccountSuspended,
    AccountSanctioned,
    KycExpired,
    UnavailableInJurisdiction,
    NotSuspended,
    ProviderNotVerifier,
    SignerNotRegistered,
    ProviderNoLongerAuthorised,
    // ── Earnings distributor ──────────────────────────────────────
    EpochNotComplete,
    EpochAlreadyFinalized,
    NoStabilityDeposit,
    // ── Partner registry ──────────────────────────────────────────
    SelfRegistrationDisabled,
    AlreadyPartner,
    NotAPartner,
    PartnerNotFound,
    PartnerNotActive,
    SymbolNotPrefixed,
    SymbolTooLong,
    PartnerCeilingExceeded,
    PartnerRatioTooLow,
    PartnerPenaltyTooHigh,
    AssetAlreadyRegistered,
    PartnerAssetNotFound,
    AssetAlreadyLive,
    OnlyEarnings,
    NoRevenue,
    ShareTooHigh,
    // ── Governance ────────────────────────────────────────────────
    OnlyGovernanceSigners,
    ProposalNotFound,
    ProposalNotActive,
    AlreadyVoted,
    NotActive,
    ThresholdNotReached,
    ProposalNotExecutable,
    TimelockNotExpired,
    OnlyProposer,
    WalletNotFound,
    WalletInactive,
    ThresholdNotPositive,
    ThresholdExceedsSigners,
    TooManySigners,
    AlreadySigner,
    BelowThreshold,
    SignerNotFound,
    TxNotFound,
    TxNotPending,
    TxAlreadyFinalized,
    NotASigner,
    AlreadyVotedOnTx,
    PartnerRegistryNotConfigured,
    LiquidityPoolNotConfigured,
    ComplianceNotConfigured,
    OracleNotConfigured,
    UpgradeTierRemoved,
    /// The action asks for the approval of a wallet, and none was given.
    MultisigRequired,
    OnlyMultisigWallet,
    CallDataTruncated,
    WasmHashTruncated,
    InvalidAddress,
    SymbolPayloadTooLong,
    StringPayloadTooLong,
    InvalidUtf8Symbol,
    InvalidUtf8String,
    InvalidSymbol,
}

impl Error {
    /// The reason in words.
    pub open spec fn text(self) -> Seq<char> {
        match self {
            Error::Arithmetic => "arithmetic overflow"@,
            Error::AlreadyInitialised => "already initialised"@,
            Error::NotInitialised => "not initialised"@,
            Error::AdminOnly => "admin only"@,
            Error::DaoOnly => "DAO only"@,
            Error::AmountNotPositive => "amount must be positive"@,
            Error::PoolPaused => "pool paused"@,
            Error::TokenPaused => "token is paused"@,
            Error::AccountFrozen => "account is frozen"@,
            Error::AmountNegative => "amount must be non-negative"@,
            Error::AllowanceExceeded => "allowance exceeded"@,
            Error::ExpirationInPast => "expiration must be in future"@,
            Error::NotFrozen => "account must be frozen before clawback"@,
            Error::InsufficientBalance => "insufficient balance"@,
            Error::MaxProvidersReached => "max providers reached"@,
            Error::AlreadyProvider => "already a provider"@,
            Error::NotAProvider => "not a provider"@,
            Error::NotAuthorisedProvider => "not an authorised provider"@,
            Error::PriceNotPositive => "price must be positive"@,
            Error::CircuitBreaker => "price move exceeds circuit breaker"@,
            Error::NoPriceFeed => "no price feed for asset"@,
            Error::NoFeed => "no feed"@,
            Error::PriceStale => "price is stale"@,
            Error::TwapStale => "TWAP is stale"@,
            Error::InsufficientObservations => "insufficient observations"@,
            Error::LengthMismatch => "assets/prices length mismatch"@,
            Error::NoDeposit => "no deposit"@,
            Error::NothingToWithdraw => "nothing to withdraw"@,
            Error::OnlyEngine => "only engine can trigger liquidation"@,
            Error::InsufficientPoolDepth => "insufficient stability pool depth"@,
            Error::AdminOrDaoOnly => "admin or DAO only"@,
            Error::InvalidFeeTier => "invalid fee tier"@,
            Error::PoolExists => "pool exists"@,
            Error::PoolNotFound => "pool not found"@,
            Error::AmountsNotPositive => "amounts must be positive"@,
            Error::InitialLiquidityTooSmall => "initial liquidity too small"@,
            Error::SharesBelowMinimum => "slippage: shares below minimum"@,
            Error::NoPosition => "no position"@,
            Error::InsufficientShares => "insufficient shares"@,
            Error::TokenABelowMinimum => "slippage: token_a below minimum"@,
            Error::TokenBBelowMinimum => "slippage: token_b below minimum"@,
            Error::AmountInNotPositive => "amount_in must be positive"@,
            Error::PriceImpactTooHigh => "price impact too high"@,
            Error::OutputBelowMinimum => "slippage: output below minimum"@,
            Error::ProtocolFeeTooHigh => "protocol fee cannot exceed 25%"@,
            Error::ProtocolFeeNegative => "protocol fee cannot be negative"@,
            Error::MinRatioTooLow => "min_cr must exceed liq_cr"@,
            Error::PenaltyTooHigh => "penalty capped at 20%"@,
            Error::CollateralNotWhitelisted => "collateral token not whitelisted"@,
            Error::AssetNotRegistered => "synth asset not registered"@,
            Error::AssetNotConfigured => "asset not configured"@,
            Error::AssetDisabled => "asset is disabled"@,
            Error::VaultAlreadyOpen => "vault already open — use deposit_collateral"@,
            Error::VaultNotFound => "vault not found — open one first"@,
            Error::CollateralNotPositive => "collateral amount must be positive"@,
            Error::DebtCeilingExceeded => "debt ceiling exceeded"@,
            Error::InsufficientCollateral => "insufficient collateral"@,
            Error::RepayNotPositive => "repay amount must be positive"@,
            Error::NotUndercollateralised => "vault is not undercollateralised"@,
            Error::CollateralRatioTooLow => "collateral ratio too low"@,
            Error::ProtocolPaused => "protocol is paused"@,
            Error::NotAuthorisedVerifier => "not an authorised verifier"@,
            Error::JurisdictionBlocked => "jurisdiction is blocked"@,
            Error::NoAttestation => "no attestation found"@,
            Error::NotOwnAttestation => "can only revoke own attestations"@,
            Error::SenderFrozen => "sender account is frozen"@,
            Error::RecipientFrozen => "recipient account is frozen"@,
            Error::SenderSanctioned => "sender account sanctioned"@,
            Error::RecipientSanctioned => "recipient account sanctioned"@,
            Error::SenderExpired => "sender KYC attestation expired"@,
            Error::RecipientExpired => "recipient KYC attestation expired"@,
            Error::SenderKycRequired => "sender KYC required"@,
            Error::RecipientKycRequired => "recipient KYC required"@,
            Error::SenderJurisdictionBlockedForAsset => "sender jurisdiction is blocked for this asset"@,
            Error::SenderJurisdictionBlocked => "sender jurisdiction globally blocked"@,
            Error::RecipientJurisdictionBlockedForAsset => "recipient jurisdiction is blocked for this asset"@,
            Error::RecipientJurisdictionBlocked => "recipient jurisdiction globally blocked"@,
            Error::DailyLimitExceeded => "daily transfer limit exceeded"@,
            Error::KycRequired => "KYC required: no attestation on file for this address"@,
            Error::KycPending => "KYC pending: your attestation is still under review"@,
            Error::AccountSuspended => "account suspended"@,
            Error::AccountSanctioned => "account sanctioned"@,
            Error::KycExpired => "KYC attestation expired — re-verify with your KYC provider"@,
            Error::UnavailableInJurisdiction => "protocol is unavailable in your jurisdiction"@,
            Error::NotSuspended => "account is not suspended"@,
            Error::ProviderNotVerifier => "provider is not an authorised verifier"@,
            Error::SignerNotRegistered => "signer not registered — provider must call register_signer first"@,
            Error::ProviderNoLongerAuthorised => "provider is no longer authorised"@,
            Error::EpochNotComplete => "epoch not yet complete"@,
            Error::EpochAlreadyFinalized => "epoch already finalized"@,
            Error::NoStabilityDeposit => "must have a Stability Pool deposit to claim"@,
            Error::SelfRegistrationDisabled => "self-registration is currently disabled"@,
            Error::AlreadyPartner => "address already registered as partner"@,
            Error::NotAPartner => "address is not a registered partner"@,
            Error::PartnerNotFound => "partner not found"@,
            Error::PartnerNotActive => "partner is not active"@,
            Error::SymbolNotPrefixed => "partner asset symbol must start with P"@,
            Error::SymbolTooLong => "partner asset symbol must be at most 9 characters"@,
            Error::PartnerCeilingExceeded => "debt ceiling exceeds partner limit"@,
            Error::PartnerRatioTooLow => "min CR must exceed liquidation CR"@,
            Error::PartnerPenaltyTooHigh => "penalty capped at 15% for partner assets"@,
            Error::AssetAlreadyRegistered => "asset symbol already registered"@,
            Error::PartnerAssetNotFound => "partner asset not found"@,
            Error::AssetAlreadyLive => "asset already live"@,
            Error::OnlyEarnings => "only earnings distributor"@,
            Error::NoRevenue => "no revenue to claim"@,
            Error::ShareTooHigh => "exceeds max 80%"@,
            Error::OnlyGovernanceSigners => "only governance signers may propose/vote"@,
            Error::ProposalNotFound => "proposal not found"@,
            Error::ProposalNotActive => "proposal not active"@,
            Error::AlreadyVoted => "already voted"@,
            Error::NotActive => "not active"@,
            Error::ThresholdNotReached => "threshold not reached"@,
            Error::ProposalNotExecutable => "proposal not executable"@,
            Error::TimelockNotExpired => "timelock not expired"@,
            Error::OnlyProposer => "only proposer can cancel"@,
            Error::WalletNotFound => "multi-sig wallet not found"@,
            Error::WalletInactive => "multi-sig wallet inactive"@,
            Error::ThresholdNotPositive => "threshold must be positive"@,
            Error::ThresholdExceedsSigners => "threshold exceeds signer count"@,
            Error::TooManySigners => "max 15 signers per wallet"@,
            Error::AlreadySigner => "address is already a signer"@,
            Error::BelowThreshold => "cannot remove signer: would drop below threshold"@,
            Error::SignerNotFound => "signer not found in wallet"@,
            Error::TxNotFound => "multi-sig tx not found"@,
            Error::TxNotPending => "tx not pending"@,
            Error::TxAlreadyFinalized => "tx already finalized"@,
            Error::NotASigner => "not a signer for this wallet"@,
            Error::AlreadyVotedOnTx => "already voted on this tx"@,
            Error::PartnerRegistryNotConfigured => "partner registry not configured — call set_protocol_config first"@,
            Error::LiquidityPoolNotConfigured => "liquidity pool not configured — call set_protocol_config first"@,
            Error::ComplianceNotConfigured => "compliance not configured — call set_compliance first"@,
            Error::OracleNotConfigured => "oracle not configured — call set_oracle first"@,
            Error::UpgradeTierRemoved => "upgrade_tier removed — all partners have the same rights"@,
            Error::MultisigRequired => "multi-sig approval required"@,
            Error::OnlyMultisigWallet => "only the multi-sig wallet may execute"@,
            Error::CallDataTruncated => "call data truncated"@,
            Error::WasmHashTruncated => "wasm hash truncated"@,
            Error::InvalidAddress => "invalid address"@,
            Error::SymbolPayloadTooLong => "symbol payload too long"@,
            Error::StringPayloadTooLong => "string payload too long"@,
            Error::InvalidUtf8Symbol => "invalid utf-8 symbol"@,
            Error::InvalidUtf8String => "invalid utf-8 string"@,
            Error::InvalidSymbol => "invalid symbol"@,
        }
    }

    /// The reason in words.
    pub fn message(&self) -> (r: &'static str)
        ensures
            r@ == self.text(),
    {
        match self {
            Error::Arithmetic => "arithmetic overflow",
            Error::AlreadyInitialised => "already initialised",
            Error::NotInitialised => "not initialised",
            Error::AdminOnly => "admin only",
            Error::DaoOnly => "DAO only",
            Error::AmountNotPositive => "amount must be positive",
            Error::PoolPaused => "pool paused",
            Error::TokenPaused => "token is paused",
            Error::AccountFrozen => "account is frozen",
            Error::AmountNegative => "amount must be non-negative",
            Error::AllowanceExceeded => "allowance exceeded",
            Error::ExpirationInPast => "expiration must be in future",
            Error::NotFrozen => "account must be frozen before clawback",
            Error::InsufficientBalance => "insufficient balance",
            Error::MaxProvidersReached => "max providers reached",
            Error::AlreadyProvider => "already a provider",
            Error::NotAProvider => "not a provider",
            Error::NotAuthorisedProvider => "not an authorised provider",
            Error::PriceNotPositive => "price must be positive",
            Error::CircuitBreaker => "price move exceeds circuit breaker",
            Error::NoPriceFeed => "no price feed for asset",
            Error::NoFeed => "no feed",
            Error::PriceStale => "price is stale",
            Error::TwapStale => "TWAP is stale",
            Error::InsufficientObservations => "insufficient observations",
            Error::LengthMismatch => "assets/prices length mismatch",
            Error::NoDeposit => "no deposit",
            Error::NothingToWithdraw => "nothing to withdraw",
            Error::OnlyEngine => "only engine can trigger liquidation",
            Error::InsufficientPoolDepth => "insufficient stability pool depth",
            Error::AdminOrDaoOnly => "admin or DAO only",
            Error::InvalidFeeTier => "invalid fee tier",
            Error::PoolExists => "pool exists",
            Error::PoolNotFound => "pool not found",
            Error::AmountsNotPositive => "amounts must be positive",
            Error::InitialLiquidityTooSmall => "initial liquidity too small",
            Error::SharesBelowMinimum => "slippage: shares below minimum",
            Error::NoPosition => "no position",
            Error::InsufficientShares => "insufficient shares",
            Error::TokenABelowMinimum => "slippage: token_a below minimum",
            Error::TokenBBelowMinimum => "slippage: token_b below minimum",
            Error::AmountInNotPositive => "amount_in must be positive",
            Error::PriceImpactTooHigh => "price impact too high",
            Error::OutputBelowMinimum => "slippage: output below minimum",
            Error::ProtocolFeeTooHigh => "protocol fee cannot exceed 25%",
            Error::ProtocolFeeNegative => "protocol fee cannot be negative",
            Error::MinRatioTooLow => "min_cr must exceed liq_cr",
            Error::PenaltyTooHigh => "penalty capped at 20%",
            Error::CollateralNotWhitelisted => "collateral token not whitelisted",
            Error::AssetNotRegistered => "synth asset not registered",
            Error::AssetNotConfigured => "asset not configured",
            Error::AssetDisabled => "asset is disabled",
            Error::VaultAlreadyOpen => "vault already open — use deposit_collateral",
            Error::VaultNotFound => "vault not found — open one first",
            Error::CollateralNotPositive => "collateral amount must be positive",
            Error::DebtCeilingExceeded => "debt ceiling exceeded",
            Error::InsufficientCollateral => "insufficient collateral",
            Error::RepayNotPositive => "repay amount must be positive",
            Error::NotUndercollateralised => "vault is not undercollateralised",
            Error::CollateralRatioTooLow => "collateral ratio too low",
            Error::ProtocolPaused => "protocol is paused",
            Error::NotAuthorisedVerifier => "not an authorised verifier",
            Error::JurisdictionBlocked => "jurisdiction is blocked",
            Error::NoAttestation => "no attestation found",
            Error::NotOwnAttestation => "can only revoke own attestations",
            Error::SenderFrozen => "sender account is frozen",
            Error::RecipientFrozen => "recipient account is frozen",
            Error::SenderSanctioned => "sender account sanctioned",
            Error::RecipientSanctioned => "recipient account sanctioned",
            Error::SenderExpired => "sender KYC attestation expired",
            Error::RecipientExpired => "recipient KYC attestation expired",
            Error::SenderKycRequired => "sender KYC required",
            Error::RecipientKycRequired => "recipient KYC required",
            Error::SenderJurisdictionBlockedForAsset => "sender jurisdiction is blocked for this asset",
            Error::SenderJurisdictionBlocked => "sender jurisdiction globally blocked",
            Error::RecipientJurisdictionBlockedForAsset => "recipient jurisdiction is blocked for this asset",
            Error::RecipientJurisdictionBlocked => "recipient jurisdiction globally blocked",
            Error::DailyLimitExceeded => "daily transfer limit exceeded",
            Error::KycRequired => "KYC required: no attestation on file for this address",
            Error::KycPending => "KYC pending: your attestation is still under review",
            Error::AccountSuspended => "account suspended",
            Error::AccountSanctioned => "account sanctioned",
            Error::KycExpired => "KYC attestation expired — re-verify with your KYC provider",
            Error::UnavailableInJurisdiction => "protocol is unavailable in your jurisdiction",
            Error::NotSuspended => "account is not suspended",
            Error::ProviderNotVerifier => "provider is not an authorised verifier",
            Error::SignerNotRegistered => "signer not registered — provider must call register_signer first",
            Error::ProviderNoLongerAuthorised => "provider is no longer authorised",
            Error::EpochNotComplete => "epoch not yet complete",
            Error::EpochAlreadyFinalized => "epoch already finalized",
            Error::NoStabilityDeposit => "must have a Stability Pool deposit to claim",
            Error::SelfRegistrationDisabled => "self-registration is currently disabled",
            Error::AlreadyPartner => "address already registered as partner",
            Error::NotAPartner => "address is not a registered partner",
            Error::PartnerNotFound => "partner not found",
            Error::PartnerNotActive => "partner is not active",
            Error::SymbolNotPrefixed => "partner asset symbol must start with P",
            Error::SymbolTooLong => "partner asset symbol must be at most 9 characters",
            Error::PartnerCeilingExceeded => "debt ceiling exceeds partner limit",
            Error::PartnerRatioTooLow => "min CR must exceed liquidation CR",
            Error::PartnerPenaltyTooHigh => "penalty capped at 15% for partner assets",
            Error::AssetAlreadyRegistered => "asset symbol already registered",
            Error::PartnerAssetNotFound => "partner asset not found",
            Error::AssetAlreadyLive => "asset already live",
            Error::OnlyEarnings => "only earnings distributor",
            Error::NoRevenue => "no revenue to claim",
            Error::ShareTooHigh => "exceeds max 80%",
            Error::OnlyGovernanceSigners => "only governance signers may propose/vote",
            Error::ProposalNotFound => "proposal not found",
            Error::ProposalNotActive => "proposal not active",
            Error::AlreadyVoted => "already voted",
            Error::NotActive => "not active",
            Error::ThresholdNotReached => "threshold not reached",
            Error::ProposalNotExecutable => "proposal not executable",
            Error::TimelockNotExpired => "timelock not expired",
            Error::OnlyProposer => "only proposer can cancel",
            Error::WalletNotFound => "multi-sig wallet not found",
            Error::WalletInactive => "multi-sig wallet inactive",
            Error::ThresholdNotPositive => "threshold must be positive",
            Error::ThresholdExceedsSigners => "threshold exceeds signer count",
            Error::TooManySigners => "max 15 signers per wallet",
            Error::AlreadySigner => "address is already a signer",
            Error::BelowThreshold => "cannot remove signer: would drop below threshold",
            Error::SignerNotFound => "signer not found in wallet",
            Error::TxNotFound => "multi-sig tx not found",
            Error::TxNotPending => "tx not pending",
            Error::TxAlreadyFinalized => "tx already finalized",
            Error::NotASigner => "not a signer for this wallet",
            Error::AlreadyVotedOnTx => "already voted on this tx",
            Error::PartnerRegistryNotConfigured => "partner registry not configured — call set_protocol_config first",
            Error::LiquidityPoolNotConfigured => "liquidity pool not configured — call set_protocol_config first",
            Error::ComplianceNotConfigured => "compliance not configured — call set_compliance first",
            Error::OracleNotConfigured => "oracle not configured — call set_oracle first",
            Error::UpgradeTierRemoved => "upgrade_tier removed — all partners have the same rights",
            Error::MultisigRequired => "multi-sig approval required",
            Error::OnlyMultisigWallet => "only the multi-sig wallet may execute",
            Error::CallDataTruncated => "call data truncated",
            Error::WasmHashTruncated => "wasm hash truncated",
            Error::InvalidAddress => "invalid address",
            Error::SymbolPayloadTooLong => "symbol payload too long",
            Error::StringPayloadTooLong => "string payload too long",
            Error::InvalidUtf8Symbol => "invalid utf-8 symbol",
            Error::InvalidUtf8String => "invalid utf-8 string",
            Error::InvalidSymbol => "invalid symbol",
        }
    }
}

/// What a call hands back against what the model says of it: the effects in
/// order and the next state where the call is accepted; the reason, and the
/// state as it was, where it is refused.
pub open spec fn agrees<S, E>(
    r: Result<Vec<E>, Error>,
    before: S,
    after: S,
    step: Result<(S, Seq<E>), Error>,
) -> bool {
    match step {
        Err(e) => r == Err::<Vec<E>, Error>(e) && after == before,
        Ok((next, effects)) => (r matches Ok(v) && v@ =~= effects) && after == next,
    }
}

/// [`agrees`], for a call that also returns a value.
pub open spec fn agrees_on<S, T, E>(
    r: Result<(T, Vec<E>), Error>,
    before: S,
    after: S,
    step: Result<(S, T, Seq<E>), Error>,
) -> bool {
    match step {
        Err(e) => r == Err::<(T, Vec<E>), Error>(e) && after == before,
        Ok((next, value, effects)) => (r matches Ok(p) && p.0 == value && p.1@ =~= effects) && after
            == next,
    }
}

/// A call is refused for this reason.
pub open spec fn refused<T>(r: Result<T, Error>, reason: Error) -> bool {
    r == Err::<T, Error>(reason)
}

/// What a result stands for.
pub open spec fn seen<T: View>(r: Result<T, Error>) -> Result<T::V, Error> {
    match r {
        Ok(v) => Ok(v@),
        Err(e) => Err(e),
    }
}

/// [`agrees`], for effects that the model knows by what they stand for.
pub open spec fn agrees_seen<S, E: View>(
    r: Result<Vec<E>, Error>,
    before: S,
    after: S,
    step: Result<(S, Seq<E::V>), Error>,
) -> bool {
    match step {
        Err(e) => r == Err::<Vec<E>, Error>(e) && after == before,
        Ok((next, effects)) => (r matches Ok(v) && v@.map_values(|e: E| e@) =~= effects) && after
            == next,
    }
}

/// [`agrees_seen`], for a call that also returns a value.
pub open spec fn agrees_seen_on<S, T: View, E: View>(
    r: Result<(T, Vec<E>), Error>,
    before: S,
    after: S,
    step: Result<(S, T::V, Seq<E::V>), Error>,
) -> bool {
    match step {
        Err(e) => r == Err::<(T, Vec<E>), Error>(e) && after == before,
        Ok((next, value, effects)) => (r matches Ok(p) && p.0@ =~= value && p.1@.map_values(
            |e: E| e@,
        ) =~= effects) && after == next,
    }
}

/// The state after a call: the next one, or the one before where the call is
/// refused.
pub open spec fn next<S, E>(before: S, step: Result<(S, Seq<E>), Error>) -> S {
    match step {
        Ok((after, _)) => after,
        Err(_) => before,
    }
}

/// [`next`], for a call that also returns a value.
pub open spec fn next_on<S, T, E>(before: S, step: Result<(S, T, Seq<E>), Error>) -> S {
    match step {
        Ok((after, _, _)) => after,
        Err(_) => before,
    }
}

} // verus!
