//! What each call on the governance contract does to it.
use crate::dao_governance::call_data;
use crate::dao_governance::call_data::{
    Action, ActionView, ACTION_ACTIVATE_PARTNER_ASSET, ACTION_ADJUST_EARNINGS, ACTION_CREATE_POOL,
    ACTION_DEACTIVATE, ACTION_DEPLOY_ASSET, ACTION_KYC_ADD_VERIFIER, ACTION_KYC_REMOVE_VERIFIER,
    ACTION_REGISTER_PARTNER, ACTION_SET_COLLATERAL_ALLOWED,
};
use crate::dao_governance::{
    CancelledEvent, Effect, ExecutedEvent, MultiSigApprovalInfo, MultiSigApprovedEvent,
    MultiSigCreatedEvent, MultiSigExecutedEvent, MultiSigScope, MultiSigTxStatus,
    MultiSigTxSummary, ProposalStatus, ProposedEvent, VotedEvent, DEFAULT_BORROW_FEE, DEFAULT_CR,
    DEFAULT_LIQ_PENALTY, GOV_WALLET_ID, MAX_SIGNERS, MSIG_REQUIRED_MASK, TIMELOCK, VOTING_PERIOD,
};
use crate::error;
use crate::error::Error;
use crate::sums;
use crate::types::{Address, Context, Symbol, WasmHash};
use vstd::prelude::*;

verus! {

/// A proposal.
#[verifier::ext_equal]
pub struct ProposalView {
    pub id: u64,
    pub proposer: Address,
    pub title: Seq<u8>,
    pub description: Seq<u8>,
    pub call_data: Seq<u8>,
    pub yes_votes: i128,
    pub no_votes: i128,
    pub start_time: u64,
    pub end_time: u64,
    pub execute_after: u64,
    pub status: ProposalStatus,
}

/// A multi-signature wallet.
#[verifier::ext_equal]
pub struct MultiSigConfigView {
    pub id: u32,
    pub threshold: u32,
    pub signers: Seq<Address>,
    pub scope: MultiSigScope,
    pub active: bool,
}

/// A transaction that awaits the approval of a wallet.
#[verifier::ext_equal]
pub struct MultiSigTxView {
    pub id: u64,
    pub wallet_id: u32,
    pub proposal_id: u64,
    pub target: Address,
    pub function_name: Symbol,
    pub call_data: Seq<u8>,
    pub approvals: u32,
    pub rejections: u32,
    pub status: MultiSigTxStatus,
    pub created_at: u64,
}

/// An effect, with the name that it may hold as characters.
#[verifier::ext_equal]
pub enum EffectView {
    RegisterPartner { registry: Address, dao: Address, owner: Address, name: Seq<char> },
    Other(Effect),
}

/// The state of the contract.
#[verifier::ext_equal]
pub struct GovernanceState {
    pub dao: Option<Address>,
    pub cdp: Option<Address>,
    pub multisig_wallet: Option<Address>,
    pub lp_contract: Option<Address>,
    pub partner_registry: Option<Address>,
    pub earnings_contract: Option<Address>,
    pub stab_pool_contract: Option<Address>,
    pub compliance: Option<Address>,
    pub oracle: Option<Address>,
    pub multisig_mask: Option<u32>,
    pub param_cr: Option<i128>,
    pub param_borrow_fee: Option<i128>,
    pub param_liq_penalty: Option<i128>,
    pub proposal_count: u64,
    pub wallet_count: u32,
    pub tx_count: u64,
    pub proposals: Map<u64, ProposalView>,
    pub voted: Map<(u64, Address), bool>,
    pub wallets: Map<u32, MultiSigConfigView>,
    pub signer_index: Map<(u32, u32), Address>,
    pub txs: Map<u64, MultiSigTxView>,
    pub approvals: Map<(u64, Address), bool>,
    pub wallet_txs: Map<u32, Seq<u64>>,
    pub proposal_txs: Map<u64, Seq<u64>>,
    pub tx_proposal: Map<u64, u64>,
}

/// An effect that holds no name.
pub open spec fn plain(effect: Effect) -> EffectView {
    EffectView::Other(effect)
}

/// The list under a key; empty where there is none.
pub open spec fn list<K>(lists: Map<K, Seq<u64>>, key: K) -> Seq<u64> {
    if lists.contains_key(key) {
        lists[key]
    } else {
        Seq::empty()
    }
}

/// `place` is where `address` first occurs.
pub open spec fn is_first(signers: Seq<Address>, address: Address, place: int) -> bool {
    &&& 0 <= place < signers.len()
    &&& signers[place] == address
    &&& forall|i: int| 0 <= i < place ==> signers[i] != address
}

/// The signers without the first occurrence of `address`.
pub open spec fn without(signers: Seq<Address>, address: Address) -> Seq<Address> {
    signers.remove(choose|place: int| is_first(signers, address, place))
}

/// An address has one first place among the signers.
pub proof fn lemma_without(signers: Seq<Address>, address: Address, place: int)
    requires
        is_first(signers, address, place),
    ensures
        without(signers, address) == signers.remove(place),
{
    let p = choose|p: int| is_first(signers, address, p);
    assert(is_first(signers, address, p));
    assert(p == place);
}

/// The index of signers, with each signer of a wallet at its place.
pub open spec fn indexed(
    index: Map<(u32, u32), Address>,
    wallet_id: u32,
    signers: Seq<Address>,
) -> Map<(u32, u32), Address> {
    index.union_prefer_right(
        Map::new(
            |key: (u32, u32)| key.0 == wallet_id && key.1 < signers.len(),
            |key: (u32, u32)| signers[key.1 as int],
        ),
    )
}

impl GovernanceState {
    /// The contract before it is set up.
    pub open spec fn blank() -> GovernanceState {
        GovernanceState {
            dao: None,
            cdp: None,
            multisig_wallet: None,
            lp_contract: None,
            partner_registry: None,
            earnings_contract: None,
            stab_pool_contract: None,
            compliance: None,
            oracle: None,
            multisig_mask: None,
            param_cr: None,
            param_borrow_fee: None,
            param_liq_penalty: None,
            proposal_count: 0,
            wallet_count: 0,
            tx_count: 0,
            proposals: Map::empty(),
            voted: Map::empty(),
            wallets: Map::empty(),
            signer_index: Map::empty(),
            txs: Map::empty(),
            approvals: Map::empty(),
            wallet_txs: Map::empty(),
            proposal_txs: Map::empty(),
            tx_proposal: Map::empty(),
        }
    }

    pub open spec fn dao_error(self, caller: Address) -> Option<Error> {
        match self.dao {
            None => Some(Error::NotInitialised),
            Some(dao) => if caller == dao {
                None
            } else {
                Some(Error::DaoOnly)
            },
        }
    }

    // ── Settings ──────────────────────────────────────────────────

    pub open spec fn initialize(self, dao: Address, cdp: Address) -> Result<
        (Self, Seq<EffectView>),
        Error,
    > {
        Ok(
            (
                GovernanceState {
                    dao: Some(dao),
                    cdp: Some(cdp),
                    proposal_count: 0,
                    param_cr: Some(DEFAULT_CR),
                    param_borrow_fee: Some(DEFAULT_BORROW_FEE),
                    param_liq_penalty: Some(DEFAULT_LIQ_PENALTY),
                    ..self
                },
                seq![plain(Effect::RequireAuth(dao))],
            ),
        )
    }

    pub open spec fn set_protocol_config(
        self,
        dao: Address,
        multisig_wallet: Address,
        lp_contract: Address,
        partner_registry: Address,
        earnings_contract: Address,
        stab_pool_contract: Address,
    ) -> Result<(Self, Seq<EffectView>), Error> {
        match self.dao_error(dao) {
            Some(e) => Err(e),
            None => Ok(
                (
                    GovernanceState {
                        multisig_wallet: Some(multisig_wallet),
                        lp_contract: Some(lp_contract),
                        partner_registry: Some(partner_registry),
                        earnings_contract: Some(earnings_contract),
                        stab_pool_contract: Some(stab_pool_contract),
                        ..self
                    },
                    seq![plain(Effect::RequireAuth(dao))],
                ),
            ),
        }
    }

    pub open spec fn set_compliance(self, dao: Address, compliance: Address) -> Result<
        (Self, Seq<EffectView>),
        Error,
    > {
        match self.dao_error(dao) {
            Some(e) => Err(e),
            None => Ok(
                (
                    GovernanceState { compliance: Some(compliance), ..self },
                    seq![plain(Effect::RequireAuth(dao))],
                ),
            ),
        }
    }

    pub open spec fn set_oracle(self, dao: Address, oracle: Address) -> Result<
        (Self, Seq<EffectView>),
        Error,
    > {
        match self.dao_error(dao) {
            Some(e) => Err(e),
            None => Ok(
                (
                    GovernanceState { oracle: Some(oracle), ..self },
                    seq![plain(Effect::RequireAuth(dao))],
                ),
            ),
        }
    }

    pub open spec fn add_oracle_provider(self, env: Context, dao: Address, provider: Address) -> Result<
        (Self, Seq<EffectView>),
        Error,
    > {
        match (self.dao_error(dao), self.oracle) {
            (Some(e), _) => Err(e),
            (None, None) => Err(Error::OracleNotConfigured),
            (None, Some(oracle)) => Ok(
                (
                    self,
                    seq![
                        plain(Effect::RequireAuth(dao)),
                        plain(Effect::AddProvider { oracle, dao: env.contract, provider }),
                    ],
                ),
            ),
        }
    }

    pub open spec fn set_oracle_min_providers(
        self,
        env: Context,
        dao: Address,
        min_providers: u32,
    ) -> Result<(Self, Seq<EffectView>), Error> {
        match (self.dao_error(dao), self.oracle) {
            (Some(e), _) => Err(e),
            (None, None) => Err(Error::OracleNotConfigured),
            (None, Some(oracle)) => Ok(
                (
                    self,
                    seq![
                        plain(Effect::RequireAuth(dao)),
                        plain(Effect::SetMinProviders { oracle, dao: env.contract, min_providers }),
                    ],
                ),
            ),
        }
    }

    pub open spec fn get_multisig_wallet(self) -> Result<Address, Error> {
        match (self.multisig_wallet, self.dao) {
            (Some(wallet), _) => Ok(wallet),
            (None, Some(dao)) => Ok(dao),
            (None, None) => Err(Error::NotInitialised),
        }
    }

    pub open spec fn upgrade(self, dao: Address, new_wasm_hash: WasmHash) -> Result<
        (Self, Seq<EffectView>),
        Error,
    > {
        match self.dao_error(dao) {
            Some(e) => Err(e),
            None => Ok(
                (
                    self,
                    seq![
                        plain(Effect::RequireAuth(dao)),
                        plain(Effect::UpdateWasm(new_wasm_hash)),
                    ],
                ),
            ),
        }
    }

    pub open spec fn set_multisig_mask(self, dao: Address, mask: u32) -> Result<
        (Self, Seq<EffectView>),
        Error,
    > {
        match self.dao_error(dao) {
            Some(e) => Err(e),
            None => Ok(
                (
                    GovernanceState { multisig_mask: Some(mask), ..self },
                    seq![plain(Effect::RequireAuth(dao))],
                ),
            ),
        }
    }

    pub open spec fn requires_multisig(self, action_type: u32) -> Result<bool, Error> {
        let mask = match self.multisig_mask {
            Some(m) => m,
            None => MSIG_REQUIRED_MASK,
        };
        if action_type >= 32 {
            Err(Error::Arithmetic)
        } else {
            Ok(mask & (1u32 << action_type) != 0)
        }
    }

    // ── Proposals ─────────────────────────────────────────────────

    /// `address` signs for the wallet that governs.
    pub open spec fn is_governance_signer(self, address: Address) -> bool {
        &&& self.wallets.contains_key(GOV_WALLET_ID)
        &&& self.wallets[GOV_WALLET_ID].active
        &&& self.wallets[GOV_WALLET_ID].signers.contains(address)
    }

    /// The state with one more proposal, and its number.
    pub open spec fn with_proposal(
        self,
        env: Context,
        proposer: Address,
        title: Seq<u8>,
        description: Seq<u8>,
        call_data: Seq<u8>,
    ) -> Result<(Self, u64), Error> {
        let id = self.proposal_count;
        if env.timestamp + VOTING_PERIOD + TIMELOCK > u64::MAX || id == u64::MAX {
            Err(Error::Arithmetic)
        } else {
            let proposal = ProposalView {
                id,
                proposer,
                title,
                description,
                call_data,
                yes_votes: 0,
                no_votes: 0,
                start_time: env.timestamp,
                end_time: (env.timestamp + VOTING_PERIOD) as u64,
                execute_after: (env.timestamp + VOTING_PERIOD + TIMELOCK) as u64,
                status: ProposalStatus::Active,
            };
            Ok(
                (
                    GovernanceState {
                        proposals: self.proposals.insert(id, proposal),
                        proposal_count: (id + 1) as u64,
                        ..self
                    },
                    id,
                ),
            )
        }
    }

    pub open spec fn propose(
        self,
        env: Context,
        proposer: Address,
        title: Seq<u8>,
        description: Seq<u8>,
        call_data: Seq<u8>,
    ) -> Result<(Self, u64, Seq<EffectView>), Error> {
        if !self.is_governance_signer(proposer) {
            Err(Error::OnlyGovernanceSigners)
        } else {
            match self.with_proposal(env, proposer, title, description, call_data) {
                Err(e) => Err(e),
                Ok((next, proposal_id)) => Ok(
                    (
                        next,
                        proposal_id,
                        seq![
                            plain(Effect::RequireAuth(proposer)),
                            plain(Effect::Proposed(ProposedEvent { proposer, proposal_id })),
                        ],
                    ),
                ),
            }
        }
    }

    pub open spec fn get_proposal(self, id: u64) -> Result<ProposalView, Error> {
        if self.proposals.contains_key(id) {
            Ok(self.proposals[id])
        } else {
            Err(Error::ProposalNotFound)
        }
    }

    pub open spec fn vote(self, voter: Address, proposal_id: u64, support: bool) -> Result<
        (Self, Seq<EffectView>),
        Error,
    > {
        let p = self.proposals[proposal_id];
        if !self.is_governance_signer(voter) {
            Err(Error::OnlyGovernanceSigners)
        } else if !self.proposals.contains_key(proposal_id) {
            Err(Error::ProposalNotFound)
        } else if p.status != ProposalStatus::Active {
            Err(Error::ProposalNotActive)
        } else if self.voted.contains_key((proposal_id, voter)) {
            Err(Error::AlreadyVoted)
        } else if (support && p.yes_votes == i128::MAX) || (!support && p.no_votes == i128::MAX) {
            Err(Error::Arithmetic)
        } else {
            Ok(
                (
                    GovernanceState {
                        proposals: self.proposals.insert(
                            proposal_id,
                            if support {
                                ProposalView { yes_votes: (p.yes_votes + 1) as i128, ..p }
                            } else {
                                ProposalView { no_votes: (p.no_votes + 1) as i128, ..p }
                            },
                        ),
                        voted: self.voted.insert((proposal_id, voter), true),
                        ..self
                    },
                    seq![
                        plain(Effect::RequireAuth(voter)),
                        plain(
                            Effect::Voted(VotedEvent { voter, proposal_id, support, weight: 1 }),
                        ),
                    ],
                ),
            )
        }
    }

    /// The state with another status of a proposal.
    pub open spec fn with_status(self, proposal_id: u64, status: ProposalStatus) -> Self {
        GovernanceState {
            proposals: self.proposals.insert(
                proposal_id,
                ProposalView { status, ..self.proposals[proposal_id] },
            ),
            ..self
        }
    }

    pub open spec fn finalise(self, proposal_id: u64) -> Result<(Self, Seq<EffectView>), Error> {
        let p = self.proposals[proposal_id];
        if !self.proposals.contains_key(proposal_id) {
            Err(Error::ProposalNotFound)
        } else if p.status != ProposalStatus::Active {
            Err(Error::NotActive)
        } else if !self.wallets.contains_key(GOV_WALLET_ID) {
            Err(Error::WalletNotFound)
        } else if p.yes_votes < self.wallets[GOV_WALLET_ID].threshold {
            Err(Error::ThresholdNotReached)
        } else {
            Ok((self.with_status(proposal_id, ProposalStatus::Passed), Seq::empty()))
        }
    }

    /// What call data asks for needs the approval of a wallet as well.
    pub open spec fn needs_approval(self, data: Seq<u8>) -> bool {
        data.len() >= 4 && self.requires_multisig(call_data::kind(data)) == Ok::<bool, Error>(true)
    }

    /// A transaction was approved, and may have been carried out.
    pub open spec fn is_approved(self, tx_id: u64) -> bool {
        self.txs.contains_key(tx_id) && (self.txs[tx_id].status == MultiSigTxStatus::Approved
            || self.txs[tx_id].status == MultiSigTxStatus::Executed)
    }

    /// A transaction that belongs to a proposal was approved.
    pub open spec fn has_approval(self, proposal_id: u64) -> bool {
        exists|i: int|
            0 <= i < list(self.proposal_txs, proposal_id).len() && self.is_approved(
                #[trigger] list(self.proposal_txs, proposal_id)[i],
            )
    }

    /// Why a proposal cannot be executed.
    pub open spec fn execution_error(self, env: Context, proposal_id: u64) -> Option<Error> {
        let p = self.proposals[proposal_id];
        if !self.proposals.contains_key(proposal_id) {
            Some(Error::ProposalNotFound)
        } else if p.status != ProposalStatus::Active && p.status != ProposalStatus::Passed {
            Some(Error::ProposalNotExecutable)
        } else if !self.wallets.contains_key(GOV_WALLET_ID) {
            Some(Error::WalletNotFound)
        } else if p.yes_votes < self.wallets[GOV_WALLET_ID].threshold {
            Some(Error::ThresholdNotReached)
        } else if env.timestamp < p.execute_after {
            Some(Error::TimelockNotExpired)
        } else if self.needs_approval(p.call_data) && !self.has_approval(proposal_id) {
            Some(Error::MultisigRequired)
        } else {
            None
        }
    }

    pub open spec fn execute(self, env: Context, executor: Address, proposal_id: u64) -> Result<
        (Self, Seq<EffectView>),
        Error,
    > {
        let data = self.proposals[proposal_id].call_data;
        match self.execution_error(env, proposal_id) {
            Some(e) => Err(e),
            None => if data.len() > 0 && self.cdp is None {
                Err(Error::NotInitialised)
            } else {
                match self.apply_call_data(env, data, executor) {
                    Err(e) => Err(e),
                    Ok((next, effects)) => Ok(
                        (
                            next.with_status(proposal_id, ProposalStatus::Executed),
                            seq![plain(Effect::RequireAuth(executor))] + effects + seq![
                                plain(Effect::Executed(ExecutedEvent { proposal_id })),
                            ],
                        ),
                    ),
                }
            },
        }
    }

    pub open spec fn cancel(self, proposer: Address, proposal_id: u64) -> Result<
        (Self, Seq<EffectView>),
        Error,
    > {
        let p = self.proposals[proposal_id];
        if !self.proposals.contains_key(proposal_id) {
            Err(Error::ProposalNotFound)
        } else if p.proposer != proposer {
            Err(Error::OnlyProposer)
        } else if p.status != ProposalStatus::Active {
            Err(Error::NotActive)
        } else {
            Ok(
                (
                    self.with_status(proposal_id, ProposalStatus::Cancelled),
                    seq![
                        plain(Effect::RequireAuth(proposer)),
                        plain(Effect::Cancelled(CancelledEvent { proposal_id })),
                    ],
                ),
            )
        }
    }

    // ── What a proposal asks for ──────────────────────────────────

    /// The contract that a kind of action is for and that was not set.
    pub open spec fn missing(self, kind: u32) -> Option<Error> {
        if (kind == ACTION_DEPLOY_ASSET || kind == ACTION_SET_COLLATERAL_ALLOWED)
            && self.cdp is None {
            Some(Error::NotInitialised)
        } else if (kind == ACTION_DEACTIVATE || kind == ACTION_ADJUST_EARNINGS || kind
            == ACTION_REGISTER_PARTNER || kind == ACTION_ACTIVATE_PARTNER_ASSET)
            && self.partner_registry is None {
            Some(Error::PartnerRegistryNotConfigured)
        } else if kind == ACTION_CREATE_POOL && self.lp_contract is None {
            Some(Error::LiquidityPoolNotConfigured)
        } else if (kind == ACTION_KYC_ADD_VERIFIER || kind == ACTION_KYC_REMOVE_VERIFIER)
            && self.compliance is None {
            Some(Error::ComplianceNotConfigured)
        } else {
            None
        }
    }

    /// Carries out what call data asks for.
    pub open spec fn apply_call_data(self, env: Context, data: Seq<u8>, caller: Address) -> Result<
        (Self, Seq<EffectView>),
        Error,
    > {
        if data.len() < 4 {
            Ok((self, Seq::empty()))
        } else {
            match self.missing(call_data::kind(data)) {
                Some(e) => Err(e),
                None => match call_data::decode(data) {
                    Err(e) => Err(e),
                    Ok(action) => self.perform(env, caller, action),
                },
            }
        }
    }

    /// Carries out an action. The oracle, the partner registry and contracts
    /// that are upgraded know this contract as their DAO; the others know
    /// `caller`.
    pub open spec fn perform(self, env: Context, caller: Address, action: ActionView) -> Result<
        (Self, Seq<EffectView>),
        Error,
    > {
        match action {
            ActionView::RegisterPartner { owner, name } => match self.partner_registry {
                None => Err(Error::PartnerRegistryNotConfigured),
                Some(registry) => Ok(
                    (
                        self,
                        seq![
                            EffectView::RegisterPartner {
                                registry,
                                dao: env.contract,
                                owner,
                                name,
                            },
                        ],
                    ),
                ),
            },
            ActionView::Other(other) => match other {
                Action::Nothing => Ok((self, Seq::empty())),
                Action::RegisterPartner { .. } => Ok((self, Seq::empty())),
                Action::DeployAsset {
                    symbol,
                    token,
                    oracle_sym,
                    coll_token,
                    coll_oracle,
                    min_cr,
                    liq_cr,
                    liq_penalty,
                    stab_fee_bps,
                    debt_ceiling,
                } => match self.cdp {
                    None => Err(Error::NotInitialised),
                    Some(engine) => Ok(
                        (
                            self,
                            seq![
                                plain(
                                    Effect::RegisterAsset {
                                        engine,
                                        dao: caller,
                                        symbol,
                                        token,
                                        oracle_sym,
                                        coll_oracle,
                                        min_cr,
                                        liq_cr,
                                        liq_penalty,
                                        stab_fee_bps,
                                        debt_ceiling,
                                    },
                                ),
                                plain(
                                    Effect::SetCollateralAllowed {
                                        engine,
                                        dao: caller,
                                        token: coll_token,
                                        allowed: true,
                                    },
                                ),
                            ],
                        ),
                    ),
                },
                Action::SetCollateralAllowed { token, allowed } => match self.cdp {
                    None => Err(Error::NotInitialised),
                    Some(engine) => Ok(
                        (
                            self,
                            seq![
                                plain(
                                    Effect::SetCollateralAllowed {
                                        engine,
                                        dao: caller,
                                        token,
                                        allowed,
                                    },
                                ),
                            ],
                        ),
                    ),
                },
                Action::Deactivate { partner_id } => match self.partner_registry {
                    None => Err(Error::PartnerRegistryNotConfigured),
                    Some(registry) => Ok(
                        (
                            self,
                            seq![
                                plain(
                                    Effect::DeactivatePartner {
                                        registry,
                                        dao: env.contract,
                                        partner_id,
                                    },
                                ),
                            ],
                        ),
                    ),
                },
                Action::AdjustEarnings { partner_id, new_share } => match self.partner_registry {
                    None => Err(Error::PartnerRegistryNotConfigured),
                    Some(registry) => Ok(
                        (
                            self,
                            seq![
                                plain(
                                    Effect::SetPartnerShare {
                                        registry,
                                        dao: env.contract,
                                        partner_id,
                                        new_share,
                                    },
                                ),
                            ],
                        ),
                    ),
                },
                Action::AdjustRatio { new_cr, new_penalty } => Ok(
                    (
                        GovernanceState {
                            param_cr: if new_cr is Some {
                                new_cr
                            } else {
                                self.param_cr
                            },
                            param_liq_penalty: if new_penalty is Some {
                                new_penalty
                            } else {
                                self.param_liq_penalty
                            },
                            ..self
                        },
                        Seq::empty(),
                    ),
                ),
                Action::ActivatePartnerAsset { symbol } => match self.partner_registry {
                    None => Err(Error::PartnerRegistryNotConfigured),
                    Some(registry) => Ok(
                        (
                            self,
                            seq![
                                plain(
                                    Effect::ActivatePartnerAsset {
                                        registry,
                                        dao: env.contract,
                                        symbol,
                                    },
                                ),
                            ],
                        ),
                    ),
                },
                Action::CreatePool { pool_id, token_a, token_b, fee_tier } => match
                    self.lp_contract {
                    None => Err(Error::LiquidityPoolNotConfigured),
                    Some(pool) => Ok(
                        (
                            self,
                            seq![
                                plain(
                                    Effect::CreatePool {
                                        pool,
                                        creator: caller,
                                        pool_id,
                                        token_a,
                                        token_b,
                                        fee_tier,
                                    },
                                ),
                            ],
                        ),
                    ),
                },
                Action::AddSigner { wallet_id, signer } => self.sign_up(wallet_id, signer),
                Action::RemoveSigner { wallet_id, signer } => self.sign_off(wallet_id, signer),
                Action::OracleAddProvider { provider } => match self.oracle {
                    None => Err(Error::OracleNotConfigured),
                    Some(oracle) => Ok(
                        (
                            self,
                            seq![plain(Effect::AddProvider { oracle, dao: env.contract, provider })],
                        ),
                    ),
                },
                Action::OracleRemoveProvider { provider } => match self.oracle {
                    None => Err(Error::OracleNotConfigured),
                    Some(oracle) => Ok(
                        (
                            self,
                            seq![
                                plain(
                                    Effect::RemoveProvider { oracle, dao: env.contract, provider },
                                ),
                            ],
                        ),
                    ),
                },
                Action::OracleSetMinProviders { min_providers } => match self.oracle {
                    None => Err(Error::OracleNotConfigured),
                    Some(oracle) => Ok(
                        (
                            self,
                            seq![
                                plain(
                                    Effect::SetMinProviders {
                                        oracle,
                                        dao: env.contract,
                                        min_providers,
                                    },
                                ),
                            ],
                        ),
                    ),
                },
                Action::KycAddVerifier { verifier } => match self.compliance {
                    None => Err(Error::ComplianceNotConfigured),
                    Some(compliance) => Ok(
                        (
                            self,
                            seq![plain(Effect::AddVerifier { compliance, dao: caller, verifier })],
                        ),
                    ),
                },
                Action::KycRemoveVerifier { verifier } => match self.compliance {
                    None => Err(Error::ComplianceNotConfigured),
                    Some(compliance) => Ok(
                        (
                            self,
                            seq![
                                plain(Effect::RemoveVerifier { compliance, dao: caller, verifier }),
                            ],
                        ),
                    ),
                },
                Action::UpgradeContract { target, wasm_hash } => Ok(
                    (
                        self,
                        seq![
                            plain(
                                if target == env.contract {
                                    Effect::UpdateWasm(wasm_hash)
                                } else {
                                    Effect::UpgradeContract {
                                        target,
                                        dao: env.contract,
                                        new_wasm_hash: wasm_hash,
                                    }
                                },
                            ),
                        ],
                    ),
                ),
                Action::SetParam { param_id, value } => Ok(
                    (
                        if param_id == 0 {
                            GovernanceState { param_cr: Some(value), ..self }
                        } else if param_id == 1 {
                            GovernanceState { param_borrow_fee: Some(value), ..self }
                        } else if param_id == 2 {
                            GovernanceState { param_liq_penalty: Some(value), ..self }
                        } else {
                            self
                        },
                        Seq::empty(),
                    ),
                ),
            },
        }
    }

    // ── Wallets ───────────────────────────────────────────────────

    pub open spec fn get_multisig_config(self, wallet_id: u32) -> Result<
        MultiSigConfigView,
        Error,
    > {
        if self.wallets.contains_key(wallet_id) {
            Ok(self.wallets[wallet_id])
        } else {
            Err(Error::WalletNotFound)
        }
    }

    pub open spec fn create_multisig(
        self,
        dao: Address,
        threshold: u32,
        signers: Seq<Address>,
        scope: MultiSigScope,
    ) -> Result<(Self, u32, Seq<EffectView>), Error> {
        let id = self.wallet_count;
        match self.dao_error(dao) {
            Some(e) => Err(e),
            None => if threshold == 0 {
                Err(Error::ThresholdNotPositive)
            } else if threshold > signers.len() {
                Err(Error::ThresholdExceedsSigners)
            } else if signers.len() > MAX_SIGNERS {
                Err(Error::TooManySigners)
            } else if id == u32::MAX {
                Err(Error::Arithmetic)
            } else {
                Ok(
                    (
                        GovernanceState {
                            wallets: self.wallets.insert(
                                id,
                                MultiSigConfigView { id, threshold, signers, scope, active: true },
                            ),
                            signer_index: indexed(self.signer_index, id, signers),
                            wallet_count: (id + 1) as u32,
                            ..self
                        },
                        id,
                        seq![
                            plain(Effect::RequireAuth(dao)),
                            plain(
                                Effect::MultiSigCreated(
                                    MultiSigCreatedEvent {
                                        wallet_id: id,
                                        threshold,
                                        signer_count: signers.len() as u32,
                                    },
                                ),
                            ),
                        ],
                    ),
                )
            },
        }
    }

    /// The state with one more signer of a wallet.
    pub open spec fn with_signer(self, wallet_id: u32, signer: Address) -> Self {
        let cfg = self.wallets[wallet_id];
        GovernanceState {
            wallets: self.wallets.insert(
                wallet_id,
                MultiSigConfigView { signers: cfg.signers.push(signer), ..cfg },
            ),
            signer_index: self.signer_index.insert((wallet_id, cfg.signers.len() as u32), signer),
            ..self
        }
    }

    /// The state with one signer less of a wallet.
    pub open spec fn without_signer(self, wallet_id: u32, signer: Address) -> Self {
        let cfg = self.wallets[wallet_id];
        let signers = without(cfg.signers, signer);
        GovernanceState {
            wallets: self.wallets.insert(wallet_id, MultiSigConfigView { signers, ..cfg }),
            signer_index: indexed(self.signer_index, wallet_id, signers).remove(
                (wallet_id, signers.len() as u32),
            ),
            ..self
        }
    }

    /// What a proposal that adds a signer does.
    pub open spec fn sign_up(self, wallet_id: u32, signer: Address) -> Result<
        (Self, Seq<EffectView>),
        Error,
    > {
        let cfg = self.wallets[wallet_id];
        if !self.wallets.contains_key(wallet_id) {
            Err(Error::WalletNotFound)
        } else if !cfg.active {
            Err(Error::WalletInactive)
        } else if cfg.signers.len() >= MAX_SIGNERS {
            Err(Error::TooManySigners)
        } else if cfg.signers.contains(signer) {
            Err(Error::AlreadySigner)
        } else {
            Ok((self.with_signer(wallet_id, signer), Seq::empty()))
        }
    }

    /// What a proposal that removes a signer does.
    pub open spec fn sign_off(self, wallet_id: u32, signer: Address) -> Result<
        (Self, Seq<EffectView>),
        Error,
    > {
        let cfg = self.wallets[wallet_id];
        if !self.wallets.contains_key(wallet_id) {
            Err(Error::WalletNotFound)
        } else if !cfg.active {
            Err(Error::WalletInactive)
        } else if cfg.signers.len() > u32::MAX {
            Err(Error::Arithmetic)
        } else if cfg.signers.len() <= cfg.threshold {
            Err(Error::BelowThreshold)
        } else if !cfg.signers.contains(signer) {
            Err(Error::SignerNotFound)
        } else {
            Ok((self.without_signer(wallet_id, signer), Seq::empty()))
        }
    }

    pub open spec fn add_signer_to_wallet(
        self,
        dao: Address,
        wallet_id: u32,
        new_signer: Address,
    ) -> Result<(Self, Seq<EffectView>), Error> {
        let cfg = self.wallets[wallet_id];
        match self.dao_error(dao) {
            Some(e) => Err(e),
            None => if !self.wallets.contains_key(wallet_id) {
                Err(Error::WalletNotFound)
            } else if !cfg.active {
                Err(Error::WalletInactive)
            } else if cfg.signers.contains(new_signer) {
                Err(Error::AlreadySigner)
            } else if cfg.signers.len() >= MAX_SIGNERS {
                Err(Error::TooManySigners)
            } else {
                Ok(
                    (
                        self.with_signer(wallet_id, new_signer),
                        seq![
                            plain(Effect::RequireAuth(dao)),
                            plain(
                                Effect::MultiSigCreated(
                                    MultiSigCreatedEvent {
                                        wallet_id,
                                        threshold: cfg.threshold,
                                        signer_count: (cfg.signers.len() + 1) as u32,
                                    },
                                ),
                            ),
                        ],
                    ),
                )
            },
        }
    }

    pub open spec fn remove_signer_from_wallet(
        self,
        dao: Address,
        wallet_id: u32,
        old_signer: Address,
    ) -> Result<(Self, Seq<EffectView>), Error> {
        match self.dao_error(dao) {
            Some(e) => Err(e),
            None => match self.sign_off(wallet_id, old_signer) {
                Err(e) => Err(e),
                Ok((next, _)) => Ok((next, seq![plain(Effect::RequireAuth(dao))])),
            },
        }
    }

    pub open spec fn is_signer_of(self, wallet_id: u32, address: Address) -> bool {
        self.wallets.contains_key(wallet_id) && self.wallets[wallet_id].signers.contains(address)
    }

    // ── Transactions of wallets ───────────────────────────────────

    /// The state with one more transaction that awaits approval, and its
    /// number.
    pub open spec fn with_tx(
        self,
        env: Context,
        wallet_id: u32,
        proposal_id: u64,
        target: Address,
        function_name: Symbol,
        call_data: Seq<u8>,
    ) -> Result<(Self, u64), Error> {
        let id = self.tx_count;
        if !self.wallets.contains_key(wallet_id) {
            Err(Error::WalletNotFound)
        } else if !self.wallets[wallet_id].active {
            Err(Error::WalletInactive)
        } else if id == u64::MAX {
            Err(Error::Arithmetic)
        } else {
            let tx = MultiSigTxView {
                id,
                wallet_id,
                proposal_id,
                target,
                function_name,
                call_data,
                approvals: 0,
                rejections: 0,
                status: MultiSigTxStatus::Pending,
                created_at: env.timestamp,
            };
            Ok(
                (
                    GovernanceState {
                        txs: self.txs.insert(id, tx),
                        tx_count: (id + 1) as u64,
                        wallet_txs: self.wallet_txs.insert(
                            wallet_id,
                            list(self.wallet_txs, wallet_id).push(id),
                        ),
                        tx_proposal: self.tx_proposal.insert(id, proposal_id),
                        proposal_txs: self.proposal_txs.insert(
                            proposal_id,
                            list(self.proposal_txs, proposal_id).push(id),
                        ),
                        ..self
                    },
                    id,
                ),
            )
        }
    }

    pub open spec fn submit_multisig_tx(
        self,
        env: Context,
        submitter: Address,
        wallet_id: u32,
        proposal_id: u64,
        target: Address,
        function_name: Symbol,
        call_data: Seq<u8>,
    ) -> Result<(Self, u64, Seq<EffectView>), Error> {
        match self.with_tx(env, wallet_id, proposal_id, target, function_name, call_data) {
            Err(e) => Err(e),
            Ok((next, tx_id)) => Ok(
                (next, tx_id, seq![plain(Effect::RequireAuth(submitter))]),
            ),
        }
    }

    pub open spec fn get_multisig_tx_status(self, tx_id: u64) -> Result<MultiSigTxView, Error> {
        if self.txs.contains_key(tx_id) {
            Ok(self.txs[tx_id])
        } else {
            Err(Error::TxNotFound)
        }
    }

    pub open spec fn approve_multisig_tx(self, signer: Address, tx_id: u64, approve: bool) -> Result<
        (Self, Seq<EffectView>),
        Error,
    > {
        let tx = self.txs[tx_id];
        let cfg = self.wallets[tx.wallet_id];
        let approvals = if approve {
            tx.approvals + 1
        } else {
            tx.approvals as int
        };
        let rejections = if approve {
            tx.rejections as int
        } else {
            tx.rejections + 1
        };
        if !self.txs.contains_key(tx_id) {
            Err(Error::TxNotFound)
        } else if tx.status != MultiSigTxStatus::Pending {
            Err(Error::TxNotPending)
        } else if !self.wallets.contains_key(tx.wallet_id) {
            Err(Error::WalletNotFound)
        } else if !cfg.signers.contains(signer) {
            Err(Error::NotASigner)
        } else if self.approvals.contains_key((tx_id, signer)) {
            Err(Error::AlreadyVotedOnTx)
        } else if approvals > u32::MAX || rejections > u32::MAX {
            Err(Error::Arithmetic)
        } else if approvals < cfg.threshold && cfg.signers.len() < cfg.threshold {
            Err(Error::Arithmetic)
        } else {
            Ok(
                (
                    GovernanceState {
                        approvals: self.approvals.insert((tx_id, signer), approve),
                        txs: self.txs.insert(
                            tx_id,
                            MultiSigTxView {
                                approvals: approvals as u32,
                                rejections: rejections as u32,
                                status: if approvals >= cfg.threshold {
                                    MultiSigTxStatus::Approved
                                } else if rejections > cfg.signers.len() - cfg.threshold {
                                    MultiSigTxStatus::Rejected
                                } else {
                                    MultiSigTxStatus::Pending
                                },
                                ..tx
                            },
                        ),
                        ..self
                    },
                    seq![
                        plain(Effect::RequireAuth(signer)),
                        plain(Effect::MultiSigApproved(MultiSigApprovedEvent { tx_id, signer })),
                    ],
                ),
            )
        }
    }

    /// The state with another status of a transaction.
    pub open spec fn with_tx_status(self, tx_id: u64, status: MultiSigTxStatus) -> Self {
        GovernanceState {
            txs: self.txs.insert(tx_id, MultiSigTxView { status, ..self.txs[tx_id] }),
            ..self
        }
    }

    pub open spec fn execute_multisig_tx(self, env: Context, executor: Address, tx_id: u64) -> Result<
        (Self, Seq<EffectView>),
        Error,
    > {
        let tx = self.txs[tx_id];
        if !self.txs.contains_key(tx_id) {
            Err(Error::TxNotFound)
        } else if tx.status != MultiSigTxStatus::Approved && tx.status
            != MultiSigTxStatus::Pending {
            Err(Error::TxAlreadyFinalized)
        } else if self.get_multisig_wallet() is Err {
            Err(self.get_multisig_wallet()->Err_0)
        } else if self.get_multisig_wallet() != Ok::<Address, Error>(executor) {
            Err(Error::OnlyMultisigWallet)
        } else {
            match self.apply_call_data(env, tx.call_data, executor) {
                Err(e) => Err(e),
                Ok((next, effects)) => Ok(
                    (
                        next.with_tx_status(tx_id, MultiSigTxStatus::Executed),
                        seq![plain(Effect::RequireAuth(executor))] + effects + seq![
                            plain(
                                Effect::MultiSigExecuted(
                                    MultiSigExecutedEvent { tx_id, proposal_id: tx.proposal_id },
                                ),
                            ),
                        ],
                    ),
                ),
            }
        }
    }

    pub open spec fn cancel_multisig_tx(self, signer: Address, tx_id: u64) -> Result<
        (Self, Seq<EffectView>),
        Error,
    > {
        let tx = self.txs[tx_id];
        if !self.txs.contains_key(tx_id) {
            Err(Error::TxNotFound)
        } else if tx.status != MultiSigTxStatus::Pending {
            Err(Error::TxNotPending)
        } else if !self.wallets.contains_key(tx.wallet_id) {
            Err(Error::WalletNotFound)
        } else if !self.wallets[tx.wallet_id].signers.contains(signer) {
            Err(Error::NotASigner)
        } else {
            Ok(
                (
                    self.with_tx_status(tx_id, MultiSigTxStatus::Cancelled),
                    seq![plain(Effect::RequireAuth(signer))],
                ),
            )
        }
    }

    pub open spec fn propose_and_queue_multisig(
        self,
        env: Context,
        proposer: Address,
        title: Seq<u8>,
        description: Seq<u8>,
        call_data: Seq<u8>,
        wallet_id: u32,
        multisig_target: Address,
        multisig_fn_name: Symbol,
    ) -> Result<(Self, Seq<u64>, Seq<EffectView>), Error> {
        if !self.is_governance_signer(proposer) {
            Err(Error::OnlyGovernanceSigners)
        } else {
            match self.with_proposal(env, proposer, title, description, call_data) {
                Err(e) => Err(e),
                Ok((proposed, proposal_id)) => match proposed.with_tx(
                    env,
                    wallet_id,
                    proposal_id,
                    multisig_target,
                    multisig_fn_name,
                    call_data,
                ) {
                    Err(e) => Err(e),
                    Ok((next, tx_id)) => Ok(
                        (
                            next,
                            seq![proposal_id, tx_id],
                            seq![
                                plain(Effect::RequireAuth(proposer)),
                                plain(Effect::Proposed(ProposedEvent { proposer, proposal_id })),
                                plain(
                                    Effect::MultiSigCreated(
                                        MultiSigCreatedEvent {
                                            wallet_id,
                                            threshold: self.wallets[wallet_id].threshold,
                                            signer_count: self.wallets[wallet_id].signers.len()
                                                as u32,
                                        },
                                    ),
                                ),
                            ],
                        ),
                    ),
                },
            }
        }
    }

    /// A transaction that awaits approval.
    pub open spec fn is_pending(self, tx_id: u64) -> bool {
        self.txs.contains_key(tx_id) && self.txs[tx_id].status == MultiSigTxStatus::Pending
    }

    pub open spec fn get_pending_multisig_txs(self, wallet_id: u32) -> Result<Seq<u64>, Error> {
        if self.wallets.contains_key(wallet_id) {
            Ok(list(self.wallet_txs, wallet_id).filter(|id: u64| self.is_pending(id)))
        } else {
            Err(Error::WalletNotFound)
        }
    }

    pub open spec fn get_multisig_tx_approvals(self, tx_id: u64) -> Result<
        Seq<MultiSigApprovalInfo>,
        Error,
    > {
        let wallet_id = self.txs[tx_id].wallet_id;
        let count = self.wallets[wallet_id].signers.len();
        if !self.txs.contains_key(tx_id) {
            Err(Error::TxNotFound)
        } else if !self.wallets.contains_key(wallet_id) {
            Err(Error::WalletNotFound)
        } else if exists|i: int|
            0 <= i < count && !(#[trigger] self.signer_index.contains_key((wallet_id, i as u32))) {
            Err(Error::NotInitialised)
        } else {
            Ok(
                Seq::new(
                    count,
                    |i: int|
                        {
                            let signer = self.signer_index[(wallet_id, i as u32)];
                            MultiSigApprovalInfo {
                                signer,
                                approved: self.approvals.contains_key((tx_id, signer))
                                    && self.approvals[(tx_id, signer)],
                            }
                        },
                ),
            )
        }
    }

    pub open spec fn get_multisig_tx_summary(self, tx_id: u64) -> Result<MultiSigTxSummary, Error> {
        let tx = self.txs[tx_id];
        let cfg = self.wallets[tx.wallet_id];
        if !self.txs.contains_key(tx_id) {
            Err(Error::TxNotFound)
        } else if !self.wallets.contains_key(tx.wallet_id) {
            Err(Error::WalletNotFound)
        } else {
            Ok(
                MultiSigTxSummary {
                    tx_id: tx.id,
                    wallet_id: tx.wallet_id,
                    proposal_id: tx.proposal_id,
                    target: tx.target,
                    function_name: tx.function_name,
                    approvals: tx.approvals,
                    rejections: tx.rejections,
                    threshold: cfg.threshold,
                    signer_count: cfg.signers.len() as u32,
                    status: tx.status,
                    created_at: tx.created_at,
                },
            )
        }
    }

    pub open spec fn get_signers(self, wallet_id: u32) -> Result<Seq<Address>, Error> {
        if self.wallets.contains_key(wallet_id) {
            Ok(self.wallets[wallet_id].signers)
        } else {
            Err(Error::WalletNotFound)
        }
    }

    pub open spec fn proposal_has_pending_multisig(self, proposal_id: u64) -> bool {
        exists|i: int|
            0 <= i < list(self.proposal_txs, proposal_id).len() && self.is_pending(
                #[trigger] list(self.proposal_txs, proposal_id)[i],
            )
    }
}

// ── What always holds ─────────────────────────────────────────────

/// Counts the votes on one proposal, or on one transaction.
pub open spec fn ballots_on(id: u64) -> spec_fn((u64, Address), bool) -> int {
    |key: (u64, Address), vote: bool|
        if key.0 == id {
            1
        } else {
            0
        }
}

impl GovernanceState {
    /// The votes on a proposal add up to the number of those who voted, and
    /// its times follow from when it was submitted.
    pub open spec fn proposal_sound(self, id: u64) -> bool {
        let p = self.proposals[id];
        &&& p.id == id
        &&& id < self.proposal_count
        &&& p.yes_votes >= 0
        &&& p.no_votes >= 0
        &&& p.yes_votes + p.no_votes == sums::total(self.voted, ballots_on(id))
        &&& p.end_time == p.start_time + VOTING_PERIOD
        &&& p.execute_after == p.end_time + TIMELOCK
    }

    pub open spec fn proposals_sound(self) -> bool {
        &&& self.voted.dom().finite()
        &&& forall|id: u64| #[trigger]
            self.proposals.contains_key(id) ==> self.proposal_sound(id)
        &&& forall|key: (u64, Address)| #[trigger]
            self.voted.contains_key(key) ==> key.0 < self.proposal_count
    }

    /// A wallet has signers enough to reach its threshold, and they are
    /// indexed.
    pub open spec fn wallet_sound(self, wallet_id: u32) -> bool {
        let cfg = self.wallets[wallet_id];
        &&& cfg.id == wallet_id
        &&& wallet_id < self.wallet_count
        &&& 0 < cfg.threshold <= cfg.signers.len() <= MAX_SIGNERS
        &&& forall|i: u32|
            i < cfg.signers.len() ==> (#[trigger] self.signer_index.contains_key((wallet_id, i)))
                && self.signer_index[(wallet_id, i)] == cfg.signers[i as int]
    }

    pub open spec fn wallets_sound(self) -> bool {
        &&& forall|id: u32| #[trigger] self.wallets.contains_key(id) ==> self.wallet_sound(id)
        &&& forall|w: u32, i: u32| #[trigger]
            self.signer_index.contains_key((w, i)) ==> self.wallets.contains_key(w) && i
                < self.wallets[w].signers.len()
    }

    /// The approvals and rejections of a transaction add up to the number of
    /// those who voted on it.
    pub open spec fn tx_sound(self, id: u64) -> bool {
        let tx = self.txs[id];
        &&& tx.id == id
        &&& id < self.tx_count
        &&& tx.approvals + tx.rejections == sums::total(self.approvals, ballots_on(id))
        &&& self.tx_proposal.contains_key(id)
        &&& self.tx_proposal[id] == tx.proposal_id
    }

    pub open spec fn txs_sound(self) -> bool {
        &&& self.approvals.dom().finite()
        &&& forall|id: u64| #[trigger] self.txs.contains_key(id) ==> self.tx_sound(id)
        &&& forall|key: (u64, Address)| #[trigger]
            self.approvals.contains_key(key) ==> key.0 < self.tx_count
    }

    /// What holds of the contract at all times.
    pub open spec fn sound(self) -> bool {
        self.proposals_sound() && self.wallets_sound() && self.txs_sound()
    }
}

/// A call that can change the contract.
pub enum Call {
    Initialize { dao: Address, cdp: Address },
    SetProtocolConfig {
        dao: Address,
        multisig_wallet: Address,
        lp_contract: Address,
        partner_registry: Address,
        earnings_contract: Address,
        stab_pool_contract: Address,
    },
    SetCompliance { dao: Address, compliance: Address },
    SetOracle { dao: Address, oracle: Address },
    SetMultisigMask { dao: Address, mask: u32 },
    Propose { proposer: Address, title: Seq<u8>, description: Seq<u8>, call_data: Seq<u8> },
    Vote { voter: Address, proposal_id: u64, support: bool },
    Finalise { proposal_id: u64 },
    Execute { executor: Address, proposal_id: u64 },
    Cancel { proposer: Address, proposal_id: u64 },
    CreateMultisig {
        dao: Address,
        threshold: u32,
        signers: Seq<Address>,
        scope: MultiSigScope,
    },
    AddSignerToWallet { dao: Address, wallet_id: u32, new_signer: Address },
    RemoveSignerFromWallet { dao: Address, wallet_id: u32, old_signer: Address },
    SubmitMultisigTx {
        submitter: Address,
        wallet_id: u32,
        proposal_id: u64,
        target: Address,
        function_name: Symbol,
        call_data: Seq<u8>,
    },
    ApproveMultisigTx { signer: Address, tx_id: u64, approve: bool },
    ExecuteMultisigTx { executor: Address, tx_id: u64 },
    CancelMultisigTx { signer: Address, tx_id: u64 },
    ProposeAndQueueMultisig {
        proposer: Address,
        title: Seq<u8>,
        description: Seq<u8>,
        call_data: Seq<u8>,
        wallet_id: u32,
        multisig_target: Address,
        multisig_fn_name: Symbol,
    },
}

impl GovernanceState {
    /// The contract after a call.
    pub open spec fn after(self, env: Context, call: Call) -> GovernanceState {
        match call {
            Call::Initialize { dao, cdp } => error::next(self, self.initialize(dao, cdp)),
            Call::SetProtocolConfig {
                dao,
                multisig_wallet,
                lp_contract,
                partner_registry,
                earnings_contract,
                stab_pool_contract,
            } => error::next(
                self,
                self.set_protocol_config(
                    dao,
                    multisig_wallet,
                    lp_contract,
                    partner_registry,
                    earnings_contract,
                    stab_pool_contract,
                ),
            ),
            Call::SetCompliance { dao, compliance } => error::next(
                self,
                self.set_compliance(dao, compliance),
            ),
            Call::SetOracle { dao, oracle } => error::next(self, self.set_oracle(dao, oracle)),
            Call::SetMultisigMask { dao, mask } => error::next(
                self,
                self.set_multisig_mask(dao, mask),
            ),
            Call::Propose { proposer, title, description, call_data } => error::next_on(
                self,
                self.propose(env, proposer, title, description, call_data),
            ),
            Call::Vote { voter, proposal_id, support } => error::next(
                self,
                self.vote(voter, proposal_id, support),
            ),
            Call::Finalise { proposal_id } => error::next(self, self.finalise(proposal_id)),
            Call::Execute { executor, proposal_id } => error::next(
                self,
                self.execute(env, executor, proposal_id),
            ),
            Call::Cancel { proposer, proposal_id } => error::next(
                self,
                self.cancel(proposer, proposal_id),
            ),
            Call::CreateMultisig { dao, threshold, signers, scope } => error::next_on(
                self,
                self.create_multisig(dao, threshold, signers, scope),
            ),
            Call::AddSignerToWallet { dao, wallet_id, new_signer } => error::next(
                self,
                self.add_signer_to_wallet(dao, wallet_id, new_signer),
            ),
            Call::RemoveSignerFromWallet { dao, wallet_id, old_signer } => error::next(
                self,
                self.remove_signer_from_wallet(dao, wallet_id, old_signer),
            ),
            Call::SubmitMultisigTx {
                submitter,
                wallet_id,
                proposal_id,
                target,
                function_name,
                call_data,
            } => error::next_on(
                self,
                self.submit_multisig_tx(
                    env,
                    submitter,
                    wallet_id,
                    proposal_id,
                    target,
                    function_name,
                    call_data,
                ),
            ),
            Call::ApproveMultisigTx { signer, tx_id, approve } => error::next(
                self,
                self.approve_multisig_tx(signer, tx_id, approve),
            ),
            Call::ExecuteMultisigTx { executor, tx_id } => error::next(
                self,
                self.execute_multisig_tx(env, executor, tx_id),
            ),
            Call::CancelMultisigTx { signer, tx_id } => error::next(
                self,
                self.cancel_multisig_tx(signer, tx_id),
            ),
            Call::ProposeAndQueueMultisig {
                proposer,
                title,
                description,
                call_data,
                wallet_id,
                multisig_target,
                multisig_fn_name,
            } => error::next_on(
                self,
                self.propose_and_queue_multisig(
                    env,
                    proposer,
                    title,
                    description,
                    call_data,
                    wallet_id,
                    multisig_target,
                    multisig_fn_name,
                ),
            ),
        }
    }
}

} // verus!
