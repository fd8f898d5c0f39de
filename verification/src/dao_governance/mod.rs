//! Proposals, votes and multi-signature wallets.
//!
//! The signers of the first wallet propose and vote, one signer one vote. A
//! proposal that as many of them support as the wallet's threshold asks for
//! is carried out once its timelock has expired.
pub mod call_data;
pub mod laws;
pub mod model;
pub mod outcomes;
pub mod payloads;

use crate::dao_governance::call_data::{
    Action, ACTION_ACTIVATE_PARTNER_ASSET, ACTION_ADJUST_EARNINGS, ACTION_CREATE_POOL,
    ACTION_DEACTIVATE, ACTION_DEPLOY_ASSET, ACTION_KYC_ADD_VERIFIER, ACTION_KYC_REMOVE_VERIFIER,
    ACTION_REGISTER_PARTNER, ACTION_SET_COLLATERAL_ALLOWED,
};
use crate::dao_governance::model::{
    EffectView, GovernanceState, MultiSigConfigView, MultiSigTxView, ProposalView,
};
use crate::error::Error;
use crate::table;
use crate::table::Table;
use crate::types::{Address, Context, Symbol, WasmHash};
use vstd::prelude::*;

verus! {

/// How long a ballot runs, in seconds.
pub const VOTING_PERIOD: u64 = 172_800;

/// How long after the ballot a proposal can be executed, in seconds.
pub const TIMELOCK: u64 = 86_400;

/// The wallet whose signers propose and vote.
pub const GOV_WALLET_ID: u32 = 0;

/// The actions that ask for the approval of a wallet as well: bits 0 to 2,
/// 6 to 12, 15 and 16.
pub const MSIG_REQUIRED_MASK: u32 = 0x19fc7;

/// The most signers that a wallet has.
pub const MAX_SIGNERS: usize = 15;

/// The parameters at first: the collateral ratio, the fee on borrowing and
/// the penalty on liquidation, in hundredths of a percent.
pub const DEFAULT_CR: i128 = 15_000;

pub const DEFAULT_BORROW_FEE: i128 = 50;

pub const DEFAULT_LIQ_PENALTY: i128 = 1_000;

#[derive(Clone, Copy, PartialEq, Eq, Structural, Debug)]
pub enum ProposalStatus {
    Active,
    Passed,
    Failed,
    Executed,
    Cancelled,
}

/// A proposal.
#[derive(Clone, PartialEq, Eq, Debug)]
pub struct Proposal {
    pub id: u64,
    pub proposer: Address,
    pub title: Vec<u8>,
    pub description: Vec<u8>,
    /// What the proposal asks for; see [`call_data`].
    pub call_data: Vec<u8>,
    pub yes_votes: i128,
    pub no_votes: i128,
    pub start_time: u64,
    pub end_time: u64,
    pub execute_after: u64,
    pub status: ProposalStatus,
}

impl View for Proposal {
    type V = ProposalView;

    open spec fn view(&self) -> ProposalView {
        ProposalView {
            id: self.id,
            proposer: self.proposer,
            title: self.title@,
            description: self.description@,
            call_data: self.call_data@,
            yes_votes: self.yes_votes,
            no_votes: self.no_votes,
            start_time: self.start_time,
            end_time: self.end_time,
            execute_after: self.execute_after,
            status: self.status,
        }
    }
}

/// What a wallet was created for, on record for those who read the wallet.
/// Which actions need approval besides the vote is set for the whole DAO, by its
/// mask, and no wallet's scope changes that.
#[derive(Clone, Copy, PartialEq, Eq, Structural, Debug)]
pub enum MultiSigScope {
    /// For privileged actions.
    PrivilegedOnly,
    /// For all that the DAO executes.
    AllExecutions,
    /// For no action.
    Disabled,
}

/// A multi-signature wallet.
#[derive(Clone, PartialEq, Eq, Debug)]
pub struct MultiSigConfig {
    pub id: u32,
    /// The approvals that are needed.
    pub threshold: u32,
    pub signers: Vec<Address>,
    pub scope: MultiSigScope,
    pub active: bool,
}

impl View for MultiSigConfig {
    type V = MultiSigConfigView;

    open spec fn view(&self) -> MultiSigConfigView {
        MultiSigConfigView {
            id: self.id,
            threshold: self.threshold,
            signers: self.signers@,
            scope: self.scope,
            active: self.active,
        }
    }
}

#[derive(Clone, Copy, PartialEq, Eq, Structural, Debug)]
pub enum MultiSigTxStatus {
    Pending,
    Approved,
    Rejected,
    Executed,
    Cancelled,
}

/// A transaction that awaits the approval of a wallet.
#[derive(Clone, PartialEq, Eq, Debug)]
pub struct MultiSigTx {
    pub id: u64,
    pub wallet_id: u32,
    pub proposal_id: u64,
    pub target: Address,
    pub function_name: Symbol,
    pub call_data: Vec<u8>,
    pub approvals: u32,
    pub rejections: u32,
    pub status: MultiSigTxStatus,
    pub created_at: u64,
}

impl View for MultiSigTx {
    type V = MultiSigTxView;

    open spec fn view(&self) -> MultiSigTxView {
        MultiSigTxView {
            id: self.id,
            wallet_id: self.wallet_id,
            proposal_id: self.proposal_id,
            target: self.target,
            function_name: self.function_name,
            call_data: self.call_data@,
            approvals: self.approvals,
            rejections: self.rejections,
            status: self.status,
            created_at: self.created_at,
        }
    }
}

/// Whether one signer approved of a transaction.
#[derive(Clone, Copy, PartialEq, Eq, Structural, Debug)]
pub struct MultiSigApprovalInfo {
    pub signer: Address,
    pub approved: bool,
}

/// A transaction of a wallet at a glance.
#[derive(Clone, Copy, PartialEq, Eq, Structural, Debug)]
pub struct MultiSigTxSummary {
    pub tx_id: u64,
    pub wallet_id: u32,
    pub proposal_id: u64,
    pub target: Address,
    pub function_name: Symbol,
    pub approvals: u32,
    pub rejections: u32,
    pub threshold: u32,
    pub signer_count: u32,
    pub status: MultiSigTxStatus,
    pub created_at: u64,
}

#[derive(Clone, Copy, PartialEq, Eq, Structural, Debug)]
pub struct MultiSigCreatedEvent {
    pub wallet_id: u32,
    pub threshold: u32,
    pub signer_count: u32,
}

#[derive(Clone, Copy, PartialEq, Eq, Structural, Debug)]
pub struct MultiSigApprovedEvent {
    pub tx_id: u64,
    pub signer: Address,
}

#[derive(Clone, Copy, PartialEq, Eq, Structural, Debug)]
pub struct MultiSigExecutedEvent {
    pub tx_id: u64,
    pub proposal_id: u64,
}

#[derive(Clone, Copy, PartialEq, Eq, Structural, Debug)]
pub struct ProposedEvent {
    pub proposer: Address,
    pub proposal_id: u64,
}

#[derive(Clone, Copy, PartialEq, Eq, Structural, Debug)]
pub struct VotedEvent {
    pub voter: Address,
    pub proposal_id: u64,
    pub support: bool,
    pub weight: i128,
}

#[derive(Clone, Copy, PartialEq, Eq, Structural, Debug)]
pub struct ExecutedEvent {
    pub proposal_id: u64,
}

#[derive(Clone, Copy, PartialEq, Eq, Structural, Debug)]
pub struct CancelledEvent {
    pub proposal_id: u64,
}

/// What a call does outside the contract, in the order in which it does it.
#[derive(Clone, PartialEq, Eq, Debug)]
pub enum Effect {
    /// The address must have authorised the call.
    RequireAuth(Address),
    /// The engine gets a new market.
    RegisterAsset {
        engine: Address,
        dao: Address,
        symbol: Symbol,
        token: Address,
        oracle_sym: Symbol,
        coll_oracle: Symbol,
        min_cr: i128,
        liq_cr: i128,
        liq_penalty: i128,
        stab_fee_bps: i128,
        debt_ceiling: i128,
    },
    SetCollateralAllowed { engine: Address, dao: Address, token: Address, allowed: bool },
    DeactivatePartner { registry: Address, dao: Address, partner_id: u32 },
    SetPartnerShare { registry: Address, dao: Address, partner_id: u32, new_share: i128 },
    RegisterPartner { registry: Address, dao: Address, owner: Address, name: String },
    ActivatePartnerAsset { registry: Address, dao: Address, symbol: Symbol },
    CreatePool {
        pool: Address,
        creator: Address,
        pool_id: Symbol,
        token_a: Address,
        token_b: Address,
        fee_tier: i128,
    },
    AddProvider { oracle: Address, dao: Address, provider: Address },
    RemoveProvider { oracle: Address, dao: Address, provider: Address },
    SetMinProviders { oracle: Address, dao: Address, min_providers: u32 },
    AddVerifier { compliance: Address, dao: Address, verifier: Address },
    RemoveVerifier { compliance: Address, dao: Address, verifier: Address },
    /// The code of another contract is replaced.
    UpgradeContract { target: Address, dao: Address, new_wasm_hash: WasmHash },
    /// The contract's own code is replaced.
    UpdateWasm(WasmHash),
    MultiSigCreated(MultiSigCreatedEvent),
    MultiSigApproved(MultiSigApprovedEvent),
    MultiSigExecuted(MultiSigExecutedEvent),
    Proposed(ProposedEvent),
    Voted(VotedEvent),
    Executed(ExecutedEvent),
    Cancelled(CancelledEvent),
}

impl View for Effect {
    type V = EffectView;

    open spec fn view(&self) -> EffectView {
        match *self {
            Effect::RegisterPartner { registry, dao, owner, name } => EffectView::RegisterPartner {
                registry,
                dao,
                owner,
                name: name@,
            },
            other => EffectView::Other(other),
        }
    }
}

/// The proposals, the wallets and what they have to approve.
pub struct DAOGovernance {
    pub dao: Option<Address>,
    /// The engine.
    pub cdp: Option<Address>,
    pub multisig_wallet: Option<Address>,
    pub lp_contract: Option<Address>,
    pub partner_registry: Option<Address>,
    pub earnings_contract: Option<Address>,
    pub stab_pool_contract: Option<Address>,
    pub compliance: Option<Address>,
    pub oracle: Option<Address>,
    pub multisig_mask: Option<u32>,
    pub param_cr: Option<i128>,
    pub param_borrow_fee: Option<i128>,
    pub param_liq_penalty: Option<i128>,
    pub proposal_count: u64,
    pub wallet_count: u32,
    pub tx_count: u64,
    pub proposals: Table<u64, Proposal>,
    /// Who voted on which proposal.
    pub voted: Table<(u64, Address), bool>,
    pub wallets: Table<u32, MultiSigConfig>,
    /// The signers of each wallet by their place.
    pub signer_index: Table<(u32, u32), Address>,
    pub txs: Table<u64, MultiSigTx>,
    /// Who approved of which transaction, or rejected it.
    pub approvals: Table<(u64, Address), bool>,
    pub wallet_txs: Table<u32, Vec<u64>>,
    pub proposal_txs: Table<u64, Vec<u64>>,
    pub tx_proposal: Table<u64, u64>,
}

impl View for DAOGovernance {
    type V = GovernanceState;

    open spec fn view(&self) -> GovernanceState {
        GovernanceState {
            dao: self.dao,
            cdp: self.cdp,
            multisig_wallet: self.multisig_wallet,
            lp_contract: self.lp_contract,
            partner_registry: self.partner_registry,
            earnings_contract: self.earnings_contract,
            stab_pool_contract: self.stab_pool_contract,
            compliance: self.compliance,
            oracle: self.oracle,
            multisig_mask: self.multisig_mask,
            param_cr: self.param_cr,
            param_borrow_fee: self.param_borrow_fee,
            param_liq_penalty: self.param_liq_penalty,
            proposal_count: self.proposal_count,
            wallet_count: self.wallet_count,
            tx_count: self.tx_count,
            proposals: table::views(self.proposals@),
            voted: self.voted@,
            wallets: table::views(self.wallets@),
            signer_index: self.signer_index@,
            txs: table::views(self.txs@),
            approvals: self.approvals@,
            wallet_txs: table::views(self.wallet_txs@),
            proposal_txs: table::views(self.proposal_txs@),
            tx_proposal: self.tx_proposal@,
        }
    }
}

/// A copy of bytes.
fn bytes_of(bytes: &Vec<u8>) -> (r: Vec<u8>)
    ensures
        r@ == bytes@,
{
    let mut r: Vec<u8> = Vec::new();
    let mut i: usize = 0;
    while i < bytes.len()
        invariant
            i <= bytes@.len(),
            r@ =~= bytes@.take(i as int),
        decreases bytes@.len() - i,
    {
        r.push(bytes[i]);
        i = i + 1;
    }
    r
}

/// A copy of addresses.
fn addresses_of(addresses: &Vec<Address>) -> (r: Vec<Address>)
    ensures
        r@ == addresses@,
{
    let mut r: Vec<Address> = Vec::new();
    let mut i: usize = 0;
    while i < addresses.len()
        invariant
            i <= addresses@.len(),
            r@ =~= addresses@.take(i as int),
        decreases addresses@.len() - i,
    {
        r.push(addresses[i]);
        i = i + 1;
    }
    r
}

/// Whether `address` is among `addresses`.
fn occurs(addresses: &Vec<Address>, address: Address) -> (r: bool)
    ensures
        r == addresses@.contains(address),
{
    let mut i: usize = 0;
    while i < addresses.len()
        invariant
            i <= addresses@.len(),
            forall|j: int| 0 <= j < i ==> addresses@[j] != address,
        decreases addresses@.len() - i,
    {
        if addresses[i] == address {
            return true;
        }
        i = i + 1;
    }
    false
}

impl DAOGovernance {
    /// The contract before it is set up.
    pub fn new() -> (r: DAOGovernance)
        ensures
            r@ == GovernanceState::blank(),
    {
        let r = DAOGovernance {
            dao: None,
            cdp: None,
            multisig_wallet: None,
            lp_contract: None,
            partner_registry: None,
            earnings_contract: None,
            stab_pool_contract: None,
            compliance: None,
            oracle: None,
            multisig_mask: None,
            param_cr: None,
            param_borrow_fee: None,
            param_liq_penalty: None,
            proposal_count: 0,
            wallet_count: 0,
            tx_count: 0,
            proposals: Table::new(),
            voted: Table::new(),
            wallets: Table::new(),
            signer_index: Table::new(),
            txs: Table::new(),
            approvals: Table::new(),
            wallet_txs: Table::new(),
            proposal_txs: Table::new(),
            tx_proposal: Table::new(),
        };
        assert(r@ =~= GovernanceState::blank());
        r
    }

    // ── Settings ──────────────────────────────────────────────────

    /// Sets up the contract.
    pub fn initialize(&mut self, dao: Address, cdp: Address) -> (r: Result<Vec<Effect>, Error>)
        ensures
            crate::error::agrees_seen(r, old(self)@, final(self)@, old(self)@.initialize(dao, cdp)),
    {
        self.dao = Some(dao);
        self.cdp = Some(cdp);
        self.proposal_count = 0;
        self.param_cr = Some(DEFAULT_CR);
        self.param_borrow_fee = Some(DEFAULT_BORROW_FEE);
        self.param_liq_penalty = Some(DEFAULT_LIQ_PENALTY);
        Ok(vec![Effect::RequireAuth(dao)])
    }

    /// Sets the multi-signature wallet and the contracts that the DAO calls.
    pub fn set_protocol_config(
        &mut self,
        dao: Address,
        multisig_wallet: Address,
        lp_contract: Address,
        partner_registry: Address,
        earnings_contract: Address,
        stab_pool_contract: Address,
    ) -> (r: Result<Vec<Effect>, Error>)
        ensures
            crate::error::agrees_seen(
                r,
                old(self)@,
                final(self)@,
                old(self)@.set_protocol_config(
                    dao,
                    multisig_wallet,
                    lp_contract,
                    partner_registry,
                    earnings_contract,
                    stab_pool_contract,
                ),
            ),
    {
        self._require_dao(dao)?;
        self.multisig_wallet = Some(multisig_wallet);
        self.lp_contract = Some(lp_contract);
        self.partner_registry = Some(partner_registry);
        self.earnings_contract = Some(earnings_contract);
        self.stab_pool_contract = Some(stab_pool_contract);
        Ok(vec![Effect::RequireAuth(dao)])
    }

    /// The earnings distributor, if it was set.
    pub fn get_earnings_contract(&self) -> (r: Option<Address>)
        ensures
            r == self@.earnings_contract,
    {
        self.earnings_contract
    }

    /// The stability pool, if it was set.
    pub fn get_stab_pool_contract(&self) -> (r: Option<Address>)
        ensures
            r == self@.stab_pool_contract,
    {
        self.stab_pool_contract
    }

    /// Sets the compliance registry whose verifiers the DAO manages. Proposing
    /// and voting do not depend on it.
    pub fn set_compliance(&mut self, dao: Address, compliance: Address) -> (r: Result<
        Vec<Effect>,
        Error,
    >)
        ensures
            crate::error::agrees_seen(
                r,
                old(self)@,
                final(self)@,
                old(self)@.set_compliance(dao, compliance),
            ),
    {
        self._require_dao(dao)?;
        self.compliance = Some(compliance);
        Ok(vec![Effect::RequireAuth(dao)])
    }

    /// The compliance registry, if it was set.
    pub fn get_compliance(&self) -> (r: Option<Address>)
        ensures
            r == self@.compliance,
    {
        self.compliance
    }

    /// Sets the oracle whose providers the DAO manages.
    pub fn set_oracle(&mut self, dao: Address, oracle: Address) -> (r: Result<Vec<Effect>, Error>)
        ensures
            crate::error::agrees_seen(
                r,
                old(self)@,
                final(self)@,
                old(self)@.set_oracle(dao, oracle),
            ),
    {
        self._require_dao(dao)?;
        self.oracle = Some(oracle);
        Ok(vec![Effect::RequireAuth(dao)])
    }

    /// Adds a provider to the oracle, without a proposal.
    pub fn add_oracle_provider(&mut self, env: &Context, dao: Address, provider: Address) -> (r: Result<
        Vec<Effect>,
        Error,
    >)
        ensures
            crate::error::agrees_seen(
                r,
                old(self)@,
                final(self)@,
                old(self)@.add_oracle_provider(*env, dao, provider),
            ),
    {
        self._require_dao(dao)?;
        let oracle = self._oracle()?;
        Ok(
            vec![
                Effect::RequireAuth(dao),
                Effect::AddProvider { oracle, dao: env.contract, provider },
            ],
        )
    }

    /// Sets how many observations the oracle needs, without a proposal.
    pub fn set_oracle_min_providers(&mut self, env: &Context, dao: Address, min_providers: u32) -> (r:
        Result<Vec<Effect>, Error>)
        ensures
            crate::error::agrees_seen(
                r,
                old(self)@,
                final(self)@,
                old(self)@.set_oracle_min_providers(*env, dao, min_providers),
            ),
    {
        self._require_dao(dao)?;
        let oracle = self._oracle()?;
        Ok(
            vec![
                Effect::RequireAuth(dao),
                Effect::SetMinProviders { oracle, dao: env.contract, min_providers },
            ],
        )
    }

    /// The oracle, if it was set.
    pub fn get_oracle(&self) -> (r: Option<Address>)
        ensures
            r == self@.oracle,
    {
        self.oracle
    }

    /// The multi-signature wallet of the protocol; the DAO where none was set.
    pub fn get_multisig_wallet(&self) -> (r: Result<Address, Error>)
        ensures
            r == self@.get_multisig_wallet(),
    {
        match (self.multisig_wallet, self.dao) {
            (Some(wallet), _) => Ok(wallet),
            (None, Some(dao)) => Ok(dao),
            (None, None) => Err(Error::NotInitialised),
        }
    }

    /// Replaces the contract's code; what it stores stays.
    pub fn upgrade(&mut self, dao: Address, new_wasm_hash: WasmHash) -> (r: Result<
        Vec<Effect>,
        Error,
    >)
        ensures
            crate::error::agrees_seen(
                r,
                old(self)@,
                final(self)@,
                old(self)@.upgrade(dao, new_wasm_hash),
            ),
    {
        self._require_dao(dao)?;
        Ok(vec![Effect::RequireAuth(dao), Effect::UpdateWasm(new_wasm_hash)])
    }

    /// Whether an action asks for the approval of a wallet as well.
    pub fn requires_multisig(&self, action_type: u32) -> (r: Result<bool, Error>)
        ensures
            r == self@.requires_multisig(action_type),
    {
        let mask: u32 = match self.multisig_mask {
            Some(m) => m,
            None => MSIG_REQUIRED_MASK,
        };
        if action_type >= 32 {
            return Err(Error::Arithmetic);
        }
        Ok((mask & (1u32 << action_type)) != 0)
    }

    /// Sets which actions ask for the approval of a wallet, one bit for each.
    pub fn set_multisig_mask(&mut self, dao: Address, mask: u32) -> (r: Result<Vec<Effect>, Error>)
        ensures
            crate::error::agrees_seen(
                r,
                old(self)@,
                final(self)@,
                old(self)@.set_multisig_mask(dao, mask),
            ),
    {
        self._require_dao(dao)?;
        self.multisig_mask = Some(mask);
        Ok(vec![Effect::RequireAuth(dao)])
    }

    /// The minimum collateral ratio.
    pub fn get_param_cr(&self) -> (r: Result<i128, Error>)
        ensures
            r == match self@.param_cr {
                Some(v) => Ok::<i128, Error>(v),
                None => Err(Error::NotInitialised),
            },
    {
        match self.param_cr {
            Some(v) => Ok(v),
            None => Err(Error::NotInitialised),
        }
    }

    /// The fee on borrowing.
    pub fn get_param_borrow_fee(&self) -> (r: Result<i128, Error>)
        ensures
            r == match self@.param_borrow_fee {
                Some(v) => Ok::<i128, Error>(v),
                None => Err(Error::NotInitialised),
            },
    {
        match self.param_borrow_fee {
            Some(v) => Ok(v),
            None => Err(Error::NotInitialised),
        }
    }

    // ── Proposals ─────────────────────────────────────────────────

    /// Submits a proposal.
    pub fn propose(
        &mut self,
        env: &Context,
        proposer: Address,
        title: Vec<u8>,
        description: Vec<u8>,
        call_data: Vec<u8>,
    ) -> (r: Result<(u64, Vec<Effect>), Error>)
        ensures
            crate::error::agrees_seen_on(
                r,
                old(self)@,
                final(self)@,
                old(self)@.propose(*env, proposer, title@, description@, call_data@),
            ),
    {
        self._require_governance_signer(proposer)?;
        let proposal_id: u64 = self.enter(env, proposer, title, description, call_data)?;
        Ok(
            (
                proposal_id,
                vec![
                    Effect::RequireAuth(proposer),
                    Effect::Proposed(ProposedEvent { proposer, proposal_id }),
                ],
            ),
        )
    }

    /// Enters a proposal under the next number.
    fn enter(
        &mut self,
        env: &Context,
        proposer: Address,
        title: Vec<u8>,
        description: Vec<u8>,
        call_data: Vec<u8>,
    ) -> (r: Result<u64, Error>)
        ensures
            match old(self)@.with_proposal(*env, proposer, title@, description@, call_data@) {
                Err(e) => r == Err::<u64, Error>(e) && final(self)@ == old(self)@,
                Ok((next, id)) => r == Ok::<u64, Error>(id) && final(self)@ == next,
            },
            final(self).wallets == old(self).wallets,
            final(self).tx_count == old(self).tx_count,
    {
        broadcast use table::lemma_views_insert;

        let id: u64 = self.proposal_count;
        let now: u64 = env.timestamp;
        if now > u64::MAX - VOTING_PERIOD - TIMELOCK || id == u64::MAX {
            return Err(Error::Arithmetic);
        }
        let proposal = Proposal {
            id,
            proposer,
            title,
            description,
            call_data,
            yes_votes: 0,
            no_votes: 0,
            start_time: now,
            end_time: now + VOTING_PERIOD,
            execute_after: now + VOTING_PERIOD + TIMELOCK,
            status: ProposalStatus::Active,
        };
        self.proposals.insert(id, proposal);
        self.proposal_count = id + 1;
        Ok(id)
    }

    /// Casts a vote: one signer, one vote.
    pub fn vote(&mut self, voter: Address, proposal_id: u64, support: bool) -> (r: Result<
        Vec<Effect>,
        Error,
    >)
        ensures
            crate::error::agrees_seen(
                r,
                old(self)@,
                final(self)@,
                old(self)@.vote(voter, proposal_id, support),
            ),
    {
        broadcast use table::lemma_views_insert;

        self._require_governance_signer(voter)?;
        let mut proposal = self._require_active(proposal_id)?;
        if self.voted.contains(&(proposal_id, voter)) {
            return Err(Error::AlreadyVoted);
        }
        let weight: i128 = 1;
        if support {
            proposal.yes_votes = crate::arith::plus(proposal.yes_votes, weight)?;
        } else {
            proposal.no_votes = crate::arith::plus(proposal.no_votes, weight)?;
        }
        self.voted.insert((proposal_id, voter), true);
        self.proposals.insert(proposal_id, proposal);
        Ok(
            vec![
                Effect::RequireAuth(voter),
                Effect::Voted(VotedEvent { voter, proposal_id, support, weight }),
            ],
        )
    }

    /// Marks a proposal passed once enough signers support it. The ballot
    /// does not end with the voting period: while the proposal is active,
    /// signers may vote.
    pub fn finalise(&mut self, proposal_id: u64) -> (r: Result<Vec<Effect>, Error>)
        ensures
            crate::error::agrees_seen(
                r,
                old(self)@,
                final(self)@,
                old(self)@.finalise(proposal_id),
            ),
    {
        broadcast use table::lemma_views_insert;

        let mut proposal = self._get_proposal(proposal_id)?;
        if proposal.status != ProposalStatus::Active {
            return Err(Error::NotActive);
        }
        let threshold: i128 = self._gov_threshold()?;
        if proposal.yes_votes < threshold {
            return Err(Error::ThresholdNotReached);
        }
        proposal.status = ProposalStatus::Passed;
        self.proposals.insert(proposal_id, proposal);
        Ok(Vec::new())
    }

    /// Carries out a proposal that enough signers support, once its timelock
    /// has expired. For an action in the mask the vote alone is not enough: a
    /// transaction that belongs to the proposal must have been approved.
    pub fn execute(&mut self, env: &Context, executor: Address, proposal_id: u64) -> (r: Result<
        Vec<Effect>,
        Error,
    >)
        ensures
            crate::error::agrees_seen(
                r,
                old(self)@,
                final(self)@,
                old(self)@.execute(*env, executor, proposal_id),
            ),
    {
        broadcast use table::lemma_views_insert;

        let mut proposal = self._get_proposal(proposal_id)?;
        if proposal.status != ProposalStatus::Active && proposal.status != ProposalStatus::Passed {
            return Err(Error::ProposalNotExecutable);
        }
        let threshold: i128 = self._gov_threshold()?;
        if proposal.yes_votes < threshold {
            return Err(Error::ThresholdNotReached);
        }
        if env.timestamp < proposal.execute_after {
            return Err(Error::TimelockNotExpired);
        }
        if self.needs_approval(&proposal.call_data) && !self.has_approval(proposal_id) {
            return Err(Error::MultisigRequired);
        }
        let mut effects = vec![Effect::RequireAuth(executor)];
        if proposal.call_data.len() > 0 {
            if self.cdp.is_none() {
                return Err(Error::NotInitialised);
            }
            let mut more = self._apply_call_data(env, &proposal.call_data, executor)?;
            effects.append(&mut more);
        }
        proposal.status = ProposalStatus::Executed;
        self.proposals.insert(proposal_id, proposal);
        effects.push(Effect::Executed(ExecutedEvent { proposal_id }));
        Ok(effects)
    }

    /// Withdraws an active proposal.
    pub fn cancel(&mut self, proposer: Address, proposal_id: u64) -> (r: Result<
        Vec<Effect>,
        Error,
    >)
        ensures
            crate::error::agrees_seen(
                r,
                old(self)@,
                final(self)@,
                old(self)@.cancel(proposer, proposal_id),
            ),
    {
        broadcast use table::lemma_views_insert;

        let mut proposal = self._get_proposal(proposal_id)?;
        if proposal.proposer != proposer {
            return Err(Error::OnlyProposer);
        }
        if proposal.status != ProposalStatus::Active {
            return Err(Error::NotActive);
        }
        proposal.status = ProposalStatus::Cancelled;
        self.proposals.insert(proposal_id, proposal);
        Ok(
            vec![
                Effect::RequireAuth(proposer),
                Effect::Cancelled(CancelledEvent { proposal_id }),
            ],
        )
    }

    /// The proposal.
    pub fn get_proposal(&self, id: u64) -> (r: Result<Proposal, Error>)
        ensures
            crate::error::seen(r) == self@.get_proposal(id),
    {
        self._get_proposal(id)
    }

    /// Whether an address voted on a proposal.
    pub fn has_voted(&self, id: u64, voter: Address) -> (r: bool)
        ensures
            r == self@.voted.contains_key((id, voter)),
    {
        self.voted.contains(&(id, voter))
    }

    /// Whether an address may propose and vote.
    pub fn is_governance_signer(&self, addr: Address) -> (r: bool)
        ensures
            r == self@.is_governance_signer(addr),
    {
        self._is_governance_signer(addr)
    }

    /// The number that the next proposal gets.
    pub fn get_proposal_count(&self) -> (r: u64)
        ensures
            r == self@.proposal_count,
    {
        self.proposal_count
    }

    fn _require_active(&self, id: u64) -> (r: Result<Proposal, Error>)
        ensures
            crate::error::seen(r) == match self@.get_proposal(id) {
                Err(e) => Err::<ProposalView, Error>(e),
                Ok(p) => if p.status == ProposalStatus::Active {
                    Ok(p)
                } else {
                    Err(Error::ProposalNotActive)
                },
            },
    {
        let p = self._get_proposal(id)?;
        if p.status != ProposalStatus::Active {
            return Err(Error::ProposalNotActive);
        }
        Ok(p)
    }

    /// The votes that a proposal needs.
    fn _gov_threshold(&self) -> (r: Result<i128, Error>)
        ensures
            r == match self@.get_multisig_config(GOV_WALLET_ID) {
                Err(e) => Err::<i128, Error>(e),
                Ok(cfg) => Ok(cfg.threshold as i128),
            },
    {
        let cfg = self._get_multisig_config(GOV_WALLET_ID)?;
        Ok(cfg.threshold as i128)
    }

    fn _get_proposal(&self, id: u64) -> (r: Result<Proposal, Error>)
        ensures
            crate::error::seen(r) == self@.get_proposal(id),
    {
        match self.proposals.get(&id) {
            None => Err(Error::ProposalNotFound),
            Some(p) => Ok(
                Proposal {
                    id: p.id,
                    proposer: p.proposer,
                    title: bytes_of(&p.title),
                    description: bytes_of(&p.description),
                    call_data: bytes_of(&p.call_data),
                    yes_votes: p.yes_votes,
                    no_votes: p.no_votes,
                    start_time: p.start_time,
                    end_time: p.end_time,
                    execute_after: p.execute_after,
                    status: p.status,
                },
            ),
        }
    }

    fn _is_governance_signer(&self, addr: Address) -> (r: bool)
        ensures
            r == self@.is_governance_signer(addr),
    {
        match self.wallets.get(&GOV_WALLET_ID) {
            Some(cfg) => cfg.active && occurs(&cfg.signers, addr),
            None => false,
        }
    }

    fn _require_governance_signer(&self, addr: Address) -> (r: Result<(), Error>)
        ensures
            r == if self@.is_governance_signer(addr) {
                Ok::<(), Error>(())
            } else {
                Err(Error::OnlyGovernanceSigners)
            },
    {
        if self._is_governance_signer(addr) {
            Ok(())
        } else {
            Err(Error::OnlyGovernanceSigners)
        }
    }

    /// Carries out what call data asks for.
    fn _apply_call_data(&mut self, env: &Context, data: &Vec<u8>, caller: Address) -> (r: Result<
        Vec<Effect>,
        Error,
    >)
        ensures
            crate::error::agrees_seen(
                r,
                old(self)@,
                final(self)@,
                old(self)@.apply_call_data(*env, data@, caller),
            ),
    {
        if data.len() < 4 {
            return Ok(Vec::new());
        }
        let kind: u32 = call_data::read_kind(data.as_slice());
        if (kind == ACTION_DEPLOY_ASSET || kind == ACTION_SET_COLLATERAL_ALLOWED)
            && self.cdp.is_none() {
            return Err(Error::NotInitialised);
        }
        if (kind == ACTION_DEACTIVATE || kind == ACTION_ADJUST_EARNINGS || kind
            == ACTION_REGISTER_PARTNER || kind == ACTION_ACTIVATE_PARTNER_ASSET)
            && self.partner_registry.is_none() {
            return Err(Error::PartnerRegistryNotConfigured);
        }
        if kind == ACTION_CREATE_POOL && self.lp_contract.is_none() {
            return Err(Error::LiquidityPoolNotConfigured);
        }
        if (kind == ACTION_KYC_ADD_VERIFIER || kind == ACTION_KYC_REMOVE_VERIFIER)
            && self.compliance.is_none() {
            return Err(Error::ComplianceNotConfigured);
        }
        let action = call_data::read(data.as_slice())?;
        self.perform(env, caller, action)
    }

    /// Carries out an action. The oracle, the partner registry and contracts
    /// that are upgraded know this contract as their DAO; the others know
    /// `caller`.
    pub fn perform(&mut self, env: &Context, caller: Address, action: Action) -> (r: Result<
        Vec<Effect>,
        Error,
    >)
        ensures
            crate::error::agrees_seen(
                r,
                old(self)@,
                final(self)@,
                old(self)@.perform(*env, caller, action@),
            ),
    {
        match action {
            Action::Nothing => Ok(Vec::new()),
            Action::DeployAsset {
                symbol,
                token,
                oracle_sym,
                coll_token,
                coll_oracle,
                min_cr,
                liq_cr,
                liq_penalty,
                stab_fee_bps,
                debt_ceiling,
            } => {
                let engine = self._engine()?;
                Ok(
                    vec![
                        Effect::RegisterAsset {
                            engine,
                            dao: caller,
                            symbol,
                            token,
                            oracle_sym,
                            coll_oracle,
                            min_cr,
                            liq_cr,
                            liq_penalty,
                            stab_fee_bps,
                            debt_ceiling,
                        },
                        Effect::SetCollateralAllowed {
                            engine,
                            dao: caller,
                            token: coll_token,
                            allowed: true,
                        },
                    ],
                )
            },
            Action::SetCollateralAllowed { token, allowed } => {
                let engine = self._engine()?;
                Ok(vec![Effect::SetCollateralAllowed { engine, dao: caller, token, allowed }])
            },
            Action::Deactivate { partner_id } => {
                let registry = self._partner_registry()?;
                Ok(vec![Effect::DeactivatePartner { registry, dao: env.contract, partner_id }])
            },
            Action::AdjustEarnings { partner_id, new_share } => {
                let registry = self._partner_registry()?;
                Ok(
                    vec![
                        Effect::SetPartnerShare {
                            registry,
                            dao: env.contract,
                            partner_id,
                            new_share,
                        },
                    ],
                )
            },
            Action::AdjustRatio { new_cr, new_penalty } => {
                if new_cr.is_some() {
                    self.param_cr = new_cr;
                }
                if new_penalty.is_some() {
                    self.param_liq_penalty = new_penalty;
                }
                Ok(Vec::new())
            },
            Action::RegisterPartner { owner, name } => {
                let registry = self._partner_registry()?;
                Ok(vec![Effect::RegisterPartner { registry, dao: env.contract, owner, name }])
            },
            Action::ActivatePartnerAsset { symbol } => {
                let registry = self._partner_registry()?;
                Ok(vec![Effect::ActivatePartnerAsset { registry, dao: env.contract, symbol }])
            },
            Action::CreatePool { pool_id, token_a, token_b, fee_tier } => {
                match self.lp_contract {
                    None => Err(Error::LiquidityPoolNotConfigured),
                    Some(pool) => Ok(
                        vec![
                            Effect::CreatePool {
                                pool,
                                creator: caller,
                                pool_id,
                                token_a,
                                token_b,
                                fee_tier,
                            },
                        ],
                    ),
                }
            },
            Action::AddSigner { wallet_id, signer } => {
                let cfg = self._get_multisig_config(wallet_id)?;
                if !cfg.active {
                    return Err(Error::WalletInactive);
                }
                if cfg.signers.len() >= MAX_SIGNERS {
                    return Err(Error::TooManySigners);
                }
                if occurs(&cfg.signers, signer) {
                    return Err(Error::AlreadySigner);
                }
                self.enlist(wallet_id, cfg, signer);
                Ok(Vec::new())
            },
            Action::RemoveSigner { wallet_id, signer } => {
                self.strike(wallet_id, signer)?;
                Ok(Vec::new())
            },
            Action::OracleAddProvider { provider } => {
                let oracle = self._oracle()?;
                Ok(vec![Effect::AddProvider { oracle, dao: env.contract, provider }])
            },
            Action::OracleRemoveProvider { provider } => {
                let oracle = self._oracle()?;
                Ok(vec![Effect::RemoveProvider { oracle, dao: env.contract, provider }])
            },
            Action::OracleSetMinProviders { min_providers } => {
                let oracle = self._oracle()?;
                Ok(vec![Effect::SetMinProviders { oracle, dao: env.contract, min_providers }])
            },
            Action::KycAddVerifier { verifier } => {
                let compliance = self._compliance()?;
                Ok(vec![Effect::AddVerifier { compliance, dao: caller, verifier }])
            },
            Action::KycRemoveVerifier { verifier } => {
                let compliance = self._compliance()?;
                Ok(vec![Effect::RemoveVerifier { compliance, dao: caller, verifier }])
            },
            Action::UpgradeContract { target, wasm_hash } => {
                if target == env.contract {
                    Ok(vec![Effect::UpdateWasm(wasm_hash)])
                } else {
                    Ok(
                        vec![
                            Effect::UpgradeContract {
                                target,
                                dao: env.contract,
                                new_wasm_hash: wasm_hash,
                            },
                        ],
                    )
                }
            },
            Action::SetParam { param_id, value } => {
                if param_id == 0 {
                    self.param_cr = Some(value);
                } else if param_id == 1 {
                    self.param_borrow_fee = Some(value);
                } else if param_id == 2 {
                    self.param_liq_penalty = Some(value);
                }
                Ok(Vec::new())
            },
        }
    }

    // ── Wallets ───────────────────────────────────────────────────

    /// Creates a wallet.
    pub fn create_multisig(
        &mut self,
        dao: Address,
        threshold: u32,
        signers: Vec<Address>,
        scope: MultiSigScope,
    ) -> (r: Result<(u32, Vec<Effect>), Error>)
        ensures
            crate::error::agrees_seen_on(
                r,
                old(self)@,
                final(self)@,
                old(self)@.create_multisig(dao, threshold, signers@, scope),
            ),
    {
        broadcast use table::lemma_views_insert;

        self._require_dao(dao)?;
        if threshold == 0 {
            return Err(Error::ThresholdNotPositive);
        }
        if threshold as usize > signers.len() {
            return Err(Error::ThresholdExceedsSigners);
        }
        if signers.len() > MAX_SIGNERS {
            return Err(Error::TooManySigners);
        }
        let id: u32 = self.wallet_count;
        if id == u32::MAX {
            return Err(Error::Arithmetic);
        }
        let signer_count: u32 = signers.len() as u32;
        self.index(id, &signers);
        self.wallets.insert(
            id,
            MultiSigConfig { id, threshold, signers, scope, active: true },
        );
        self.wallet_count = id + 1;
        Ok(
            (
                id,
                vec![
                    Effect::RequireAuth(dao),
                    Effect::MultiSigCreated(
                        MultiSigCreatedEvent { wallet_id: id, threshold, signer_count },
                    ),
                ],
            ),
        )
    }

    /// Indexes the signers of a wallet.
    fn index(&mut self, wallet_id: u32, signers: &Vec<Address>)
        requires
            signers@.len() <= u32::MAX,
        ensures
            final(self)@ == (GovernanceState {
                signer_index: model::indexed(old(self)@.signer_index, wallet_id, signers@),
                ..old(self)@
            }),
            final(self).wallets == old(self).wallets,
            final(self).wallet_count == old(self).wallet_count,
    {
        let mut i: u32 = 0;
        let n: u32 = signers.len() as u32;
        proof {
            assert(model::indexed(self@.signer_index, wallet_id, signers@.take(0))
                =~= self@.signer_index);
        }
        while i < n
            invariant
                i <= n == signers@.len(),
                self@ == (GovernanceState {
                    signer_index: model::indexed(
                        old(self)@.signer_index,
                        wallet_id,
                        signers@.take(i as int),
                    ),
                    ..old(self)@
                }),
                self.wallets == old(self).wallets,
                self.wallet_count == old(self).wallet_count,
            decreases n - i,
        {
            let ghost before = self@.signer_index;
            self.signer_index.insert((wallet_id, i), signers[i as usize]);
            proof {
                assert(self@.signer_index =~= model::indexed(
                    old(self)@.signer_index,
                    wallet_id,
                    signers@.take(i + 1),
                ));
            }
            i = i + 1;
        }
        proof {
            assert(signers@.take(n as int) =~= signers@);
        }
    }

    /// Adds a signer to a wallet.
    pub fn add_signer_to_wallet(&mut self, dao: Address, wallet_id: u32, new_signer: Address) -> (r:
        Result<Vec<Effect>, Error>)
        ensures
            crate::error::agrees_seen(
                r,
                old(self)@,
                final(self)@,
                old(self)@.add_signer_to_wallet(dao, wallet_id, new_signer),
            ),
    {
        self._require_dao(dao)?;
        let cfg = self._get_multisig_config(wallet_id)?;
        if !cfg.active {
            return Err(Error::WalletInactive);
        }
        if occurs(&cfg.signers, new_signer) {
            return Err(Error::AlreadySigner);
        }
        if cfg.signers.len() >= MAX_SIGNERS {
            return Err(Error::TooManySigners);
        }
        let threshold: u32 = cfg.threshold;
        let signer_count: u32 = (cfg.signers.len() + 1) as u32;
        self.enlist(wallet_id, cfg, new_signer);
        Ok(
            vec![
                Effect::RequireAuth(dao),
                Effect::MultiSigCreated(
                    MultiSigCreatedEvent { wallet_id, threshold, signer_count },
                ),
            ],
        )
    }

    /// Puts a signer behind the others of a wallet.
    fn enlist(&mut self, wallet_id: u32, config: MultiSigConfig, signer: Address)
        requires
            old(self)@.wallets.contains_key(wallet_id),
            old(self)@.wallets[wallet_id] == config@,
            config.signers@.len() < MAX_SIGNERS,
        ensures
            final(self)@ == old(self)@.with_signer(wallet_id, signer),
    {
        broadcast use table::lemma_views_insert;

        let mut cfg = config;
        let idx: u32 = cfg.signers.len() as u32;
        cfg.signers.push(signer);
        self.wallets.insert(wallet_id, cfg);
        self.signer_index.insert((wallet_id, idx), signer);
    }

    /// Removes a signer from a wallet, which keeps as many as its threshold
    /// asks for.
    pub fn remove_signer_from_wallet(
        &mut self,
        dao: Address,
        wallet_id: u32,
        old_signer: Address,
    ) -> (r: Result<Vec<Effect>, Error>)
        ensures
            crate::error::agrees_seen(
                r,
                old(self)@,
                final(self)@,
                old(self)@.remove_signer_from_wallet(dao, wallet_id, old_signer),
            ),
    {
        self._require_dao(dao)?;
        self.strike(wallet_id, old_signer)?;
        Ok(vec![Effect::RequireAuth(dao)])
    }

    /// Takes a signer out of a wallet and moves those behind up.
    fn strike(&mut self, wallet_id: u32, old_signer: Address) -> (r: Result<(), Error>)
        ensures
            match old(self)@.sign_off(wallet_id, old_signer) {
                Err(e) => r == Err::<(), Error>(e) && final(self)@ == old(self)@,
                Ok((next, _)) => r is Ok && final(self)@ == next,
            },
    {
        broadcast use table::lemma_views_insert;

        let mut cfg = self._get_multisig_config(wallet_id)?;
        if !cfg.active {
            return Err(Error::WalletInactive);
        }
        if cfg.signers.len() > u32::MAX as usize {
            return Err(Error::Arithmetic);
        }
        let signer_count: u32 = cfg.signers.len() as u32;
        if signer_count <= cfg.threshold {
            return Err(Error::BelowThreshold);
        }
        let mut i: usize = 0;
        while i < cfg.signers.len() && cfg.signers[i] != old_signer
            invariant
                i <= cfg.signers@.len(),
                forall|j: int| 0 <= j < i ==> cfg.signers@[j] != old_signer,
            decreases cfg.signers@.len() - i,
        {
            i = i + 1;
        }
        if i == cfg.signers.len() {
            return Err(Error::SignerNotFound);
        }
        proof {
            model::lemma_without(cfg.signers@, old_signer, i as int);
        }
        let _removed = cfg.signers.remove(i);
        let last: u32 = cfg.signers.len() as u32;
        self.index(wallet_id, &cfg.signers);
        self.wallets.insert(wallet_id, cfg);
        self.signer_index.remove(&(wallet_id, last));
        Ok(())
    }

    /// The wallet.
    pub fn get_multisig_config(&self, wallet_id: u32) -> (r: Result<MultiSigConfig, Error>)
        ensures
            crate::error::seen(r) == self@.get_multisig_config(wallet_id),
    {
        self._get_multisig_config(wallet_id)
    }

    /// The signers of a wallet.
    pub fn get_signers(&self, wallet_id: u32) -> (r: Result<Vec<Address>, Error>)
        ensures
            crate::error::seen(r) == self@.get_signers(wallet_id),
    {
        let cfg = self._get_multisig_config(wallet_id)?;
        Ok(cfg.signers)
    }

    /// Whether an address signs for a wallet; not where there is no such
    /// wallet.
    pub fn is_signer_of(&self, wallet_id: u32, addr: Address) -> (r: bool)
        ensures
            r == self@.is_signer_of(wallet_id, addr),
    {
        match self.wallets.get(&wallet_id) {
            Some(cfg) => occurs(&cfg.signers, addr),
            None => false,
        }
    }

    /// How many wallets were created.
    pub fn get_wallet_count(&self) -> (r: u32)
        ensures
            r == self@.wallet_count,
    {
        self.wallet_count
    }

    // ── Transactions of wallets ───────────────────────────────────

    /// Submits a transaction for the approval of a wallet.
    pub fn submit_multisig_tx(
        &mut self,
        env: &Context,
        submitter: Address,
        wallet_id: u32,
        proposal_id: u64,
        target: Address,
        function_name: Symbol,
        call_data: Vec<u8>,
    ) -> (r: Result<(u64, Vec<Effect>), Error>)
        ensures
            crate::error::agrees_seen_on(
                r,
                old(self)@,
                final(self)@,
                old(self)@.submit_multisig_tx(
                    *env,
                    submitter,
                    wallet_id,
                    proposal_id,
                    target,
                    function_name,
                    call_data@,
                ),
            ),
    {
        let cfg = self._get_multisig_config(wallet_id)?;
        if !cfg.active {
            return Err(Error::WalletInactive);
        }
        if self.tx_count == u64::MAX {
            return Err(Error::Arithmetic);
        }
        let tx_id: u64 = self.queue(env, wallet_id, proposal_id, target, function_name, call_data);
        Ok((tx_id, vec![Effect::RequireAuth(submitter)]))
    }

    /// Puts a transaction under the next number.
    fn queue(
        &mut self,
        env: &Context,
        wallet_id: u32,
        proposal_id: u64,
        target: Address,
        function_name: Symbol,
        call_data: Vec<u8>,
    ) -> (r: u64)
        requires
            old(self)@.wallets.contains_key(wallet_id),
            old(self)@.wallets[wallet_id].active,
            old(self)@.tx_count < u64::MAX,
        ensures
            old(self)@.with_tx(
                *env,
                wallet_id,
                proposal_id,
                target,
                function_name,
                call_data@,
            ) == Ok::<(GovernanceState, u64), Error>((final(self)@, r)),
    {
        broadcast use table::lemma_views_insert;
        broadcast use table::lemma_views_remove;

        let tx_id: u64 = self.tx_count;
        let tx = MultiSigTx {
            id: tx_id,
            wallet_id,
            proposal_id,
            target,
            function_name,
            call_data,
            approvals: 0,
            rejections: 0,
            status: MultiSigTxStatus::Pending,
            created_at: env.timestamp,
        };
        self.txs.insert(tx_id, tx);
        self.tx_count = tx_id + 1;
        let mut wallet_txs: Vec<u64> = match self.wallet_txs.take(&wallet_id) {
            Some(ids) => ids,
            None => Vec::new(),
        };
        wallet_txs.push(tx_id);
        self.wallet_txs.insert(wallet_id, wallet_txs);
        self.tx_proposal.insert(tx_id, proposal_id);
        let mut proposal_txs: Vec<u64> = match self.proposal_txs.take(&proposal_id) {
            Some(ids) => ids,
            None => Vec::new(),
        };
        proposal_txs.push(tx_id);
        self.proposal_txs.insert(proposal_id, proposal_txs);
        proof {
            let next = old(self)@.with_tx(
                *env,
                wallet_id,
                proposal_id,
                target,
                function_name,
                call_data@,
            )->Ok_0.0;
            assert(self@.wallet_txs =~= next.wallet_txs);
            assert(self@.proposal_txs =~= next.proposal_txs);
            assert(self@ =~= next);
        }
        tx_id
    }

    /// Approves of a transaction, or rejects it.
    pub fn approve_multisig_tx(&mut self, signer: Address, tx_id: u64, approve: bool) -> (r: Result<
        Vec<Effect>,
        Error,
    >)
        ensures
            crate::error::agrees_seen(
                r,
                old(self)@,
                final(self)@,
                old(self)@.approve_multisig_tx(signer, tx_id, approve),
            ),
    {
        broadcast use table::lemma_views_insert;

        let mut tx = self._get_multisig_tx(tx_id)?;
        if tx.status != MultiSigTxStatus::Pending {
            return Err(Error::TxNotPending);
        }
        let cfg = self._get_multisig_config(tx.wallet_id)?;
        if !occurs(&cfg.signers, signer) {
            return Err(Error::NotASigner);
        }
        if self.approvals.contains(&(tx_id, signer)) {
            return Err(Error::AlreadyVotedOnTx);
        }
        if approve {
            if tx.approvals == u32::MAX {
                return Err(Error::Arithmetic);
            }
            tx.approvals = tx.approvals + 1;
        } else {
            if tx.rejections == u32::MAX {
                return Err(Error::Arithmetic);
            }
            tx.rejections = tx.rejections + 1;
        }
        if tx.approvals >= cfg.threshold {
            tx.status = MultiSigTxStatus::Approved;
        } else {
            if cfg.signers.len() < cfg.threshold as usize {
                return Err(Error::Arithmetic);
            }
            if tx.rejections as usize > cfg.signers.len() - cfg.threshold as usize {
                tx.status = MultiSigTxStatus::Rejected;
            }
        }
        self.approvals.insert((tx_id, signer), approve);
        self.txs.insert(tx_id, tx);
        Ok(
            vec![
                Effect::RequireAuth(signer),
                Effect::MultiSigApproved(MultiSigApprovedEvent { tx_id, signer }),
            ],
        )
    }

    /// Carries out a transaction that was not finished or dropped. The
    /// multi-sig wallet authorises this: its signers approved on the ledger, or
    /// sign the call together.
    pub fn execute_multisig_tx(&mut self, env: &Context, executor: Address, tx_id: u64) -> (r: Result<
        Vec<Effect>,
        Error,
    >)
        ensures
            crate::error::agrees_seen(
                r,
                old(self)@,
                final(self)@,
                old(self)@.execute_multisig_tx(*env, executor, tx_id),
            ),
    {
        broadcast use table::lemma_views_insert;

        let mut tx = self._get_multisig_tx(tx_id)?;
        if tx.status != MultiSigTxStatus::Approved && tx.status != MultiSigTxStatus::Pending {
            return Err(Error::TxAlreadyFinalized);
        }
        if executor != self.get_multisig_wallet()? {
            return Err(Error::OnlyMultisigWallet);
        }
        let proposal_id: u64 = tx.proposal_id;
        let mut effects = vec![Effect::RequireAuth(executor)];
        let mut more = self._apply_call_data(env, &tx.call_data, executor)?;
        effects.append(&mut more);
        tx.status = MultiSigTxStatus::Executed;
        self.txs.insert(tx_id, tx);
        effects.push(Effect::MultiSigExecuted(MultiSigExecutedEvent { tx_id, proposal_id }));
        Ok(effects)
    }

    /// The transaction.
    pub fn get_multisig_tx_status(&self, tx_id: u64) -> (r: Result<MultiSigTx, Error>)
        ensures
            crate::error::seen(r) == self@.get_multisig_tx_status(tx_id),
    {
        self._get_multisig_tx(tx_id)
    }

    /// The transactions that await the approval of a wallet.
    pub fn get_pending_multisig_txs(&self, wallet_id: u32) -> (r: Result<Vec<u64>, Error>)
        ensures
            crate::error::seen(r) == self@.get_pending_multisig_txs(wallet_id),
    {
        if !self.wallets.contains(&wallet_id) {
            return Err(Error::WalletNotFound);
        }
        let ghost pred = |id: u64| self@.is_pending(id);
        let mut pending: Vec<u64> = Vec::new();
        match self.wallet_txs.get(&wallet_id) {
            None => {
                proof {
                    reveal(Seq::filter);
                }
            },
            Some(ids) => {
                let mut i: usize = 0;
                proof {
                    reveal(Seq::filter);
                    assert(ids@.take(0).filter(pred) =~= Seq::<u64>::empty());
                }
                while i < ids.len()
                    invariant
                        i <= ids@.len(),
                        pred == (|id: u64| self@.is_pending(id)),
                        pending@ =~= ids@.take(i as int).filter(pred),
                    decreases ids@.len() - i,
                {
                    proof {
                        reveal(Seq::filter);
                        assert(ids@.take(i + 1).drop_last() =~= ids@.take(i as int));
                    }
                    let id: u64 = ids[i];
                    if self.awaits(id) {
                        pending.push(id);
                    }
                    i = i + 1;
                }
                proof {
                    assert(ids@.take(i as int) =~= ids@);
                }
            },
        }
        Ok(pending)
    }

    /// Whether a transaction awaits approval.
    fn awaits(&self, tx_id: u64) -> (r: bool)
        ensures
            r == self@.is_pending(tx_id),
    {
        match self.txs.get(&tx_id) {
            Some(tx) => tx.status == MultiSigTxStatus::Pending,
            None => false,
        }
    }

    /// Which signers approved of a transaction.
    pub fn get_multisig_tx_approvals(&self, tx_id: u64) -> (r: Result<
        Vec<MultiSigApprovalInfo>,
        Error,
    >)
        ensures
            crate::error::seen(r) == self@.get_multisig_tx_approvals(tx_id),
    {
        let tx = self._get_multisig_tx(tx_id)?;
        let cfg = self._get_multisig_config(tx.wallet_id)?;
        let wallet_id: u32 = tx.wallet_id;
        let n: usize = cfg.signers.len();
        let ghost info = |i: int|
            {
                let signer = self@.signer_index[(wallet_id, i as u32)];
                MultiSigApprovalInfo {
                    signer,
                    approved: self@.approvals.contains_key((tx_id, signer))
                        && self@.approvals[(tx_id, signer)],
                }
            };
        let mut approvals: Vec<MultiSigApprovalInfo> = Vec::new();
        let mut i: usize = 0;
        while i < n
            invariant
                i <= n,
                n == self@.wallets[wallet_id].signers.len(),
                self@.txs.contains_key(tx_id),
                wallet_id == self@.txs[tx_id].wallet_id,
                self@.wallets.contains_key(wallet_id),
                forall|j: int|
                    0 <= j < i ==> #[trigger] self@.signer_index.contains_key(
                        (wallet_id, j as u32),
                    ),
                info == (|i: int|
                    {
                        let signer = self@.signer_index[(wallet_id, i as u32)];
                        MultiSigApprovalInfo {
                            signer,
                            approved: self@.approvals.contains_key((tx_id, signer))
                                && self@.approvals[(tx_id, signer)],
                        }
                    }),
                approvals@ =~= Seq::new(i as nat, info),
            decreases n - i,
        {
            let signer: Address = match self.signer_index.get(&(wallet_id, i as u32)) {
                Some(a) => *a,
                None => {
                    assert(!self@.signer_index.contains_key((wallet_id, i as int as u32)));
                    return Err(Error::NotInitialised);
                },
            };
            let approved: bool = match self.approvals.get(&(tx_id, signer)) {
                Some(v) => *v,
                None => false,
            };
            approvals.push(MultiSigApprovalInfo { signer, approved });
            i = i + 1;
        }
        proof {
            assert(self@.get_multisig_tx_approvals(tx_id)->Ok_0 =~= Seq::new(n as nat, info));
        }
        Ok(approvals)
    }

    /// The transaction at a glance.
    pub fn get_multisig_tx_summary(&self, tx_id: u64) -> (r: Result<MultiSigTxSummary, Error>)
        ensures
            r == self@.get_multisig_tx_summary(tx_id),
    {
        let tx = self._get_multisig_tx(tx_id)?;
        let cfg = self._get_multisig_config(tx.wallet_id)?;
        Ok(
            MultiSigTxSummary {
                tx_id: tx.id,
                wallet_id: tx.wallet_id,
                proposal_id: tx.proposal_id,
                target: tx.target,
                function_name: tx.function_name,
                approvals: tx.approvals,
                rejections: tx.rejections,
                threshold: cfg.threshold,
                signer_count: cfg.signers.len() as u32,
                status: tx.status,
                created_at: tx.created_at,
            },
        )
    }

    /// Drops a transaction that awaits approval.
    pub fn cancel_multisig_tx(&mut self, signer: Address, tx_id: u64) -> (r: Result<
        Vec<Effect>,
        Error,
    >)
        ensures
            crate::error::agrees_seen(
                r,
                old(self)@,
                final(self)@,
                old(self)@.cancel_multisig_tx(signer, tx_id),
            ),
    {
        broadcast use table::lemma_views_insert;

        let mut tx = self._get_multisig_tx(tx_id)?;
        if tx.status != MultiSigTxStatus::Pending {
            return Err(Error::TxNotPending);
        }
        let cfg = self._get_multisig_config(tx.wallet_id)?;
        if !occurs(&cfg.signers, signer) {
            return Err(Error::NotASigner);
        }
        tx.status = MultiSigTxStatus::Cancelled;
        self.txs.insert(tx_id, tx);
        Ok(vec![Effect::RequireAuth(signer)])
    }

    /// Submits a proposal, and a transaction with the same call data for the
    /// approval of a wallet. Gives the number of each.
    pub fn propose_and_queue_multisig(
        &mut self,
        env: &Context,
        proposer: Address,
        title: Vec<u8>,
        description: Vec<u8>,
        call_data: Vec<u8>,
        wallet_id: u32,
        multisig_target: Address,
        multisig_fn_name: Symbol,
    ) -> (r: Result<(Vec<u64>, Vec<Effect>), Error>)
        ensures
            crate::error::agrees_seen_on(
                r,
                old(self)@,
                final(self)@,
                old(self)@.propose_and_queue_multisig(
                    *env,
                    proposer,
                    title@,
                    description@,
                    call_data@,
                    wallet_id,
                    multisig_target,
                    multisig_fn_name,
                ),
            ),
    {
        self._require_governance_signer(proposer)?;
        if env.timestamp > u64::MAX - VOTING_PERIOD - TIMELOCK || self.proposal_count == u64::MAX {
            return Err(Error::Arithmetic);
        }
        let cfg = self._get_multisig_config(wallet_id)?;
        if !cfg.active {
            return Err(Error::WalletInactive);
        }
        if self.tx_count == u64::MAX {
            return Err(Error::Arithmetic);
        }
        let threshold: u32 = cfg.threshold;
        let signer_count: u32 = cfg.signers.len() as u32;
        let queued = bytes_of(&call_data);
        let proposal_id: u64 = self.enter(env, proposer, title, description, call_data)?;
        let tx_id: u64 = self.queue(
            env,
            wallet_id,
            proposal_id,
            multisig_target,
            multisig_fn_name,
            queued,
        );
        Ok(
            (
                vec![proposal_id, tx_id],
                vec![
                    Effect::RequireAuth(proposer),
                    Effect::Proposed(ProposedEvent { proposer, proposal_id }),
                    Effect::MultiSigCreated(
                        MultiSigCreatedEvent { wallet_id, threshold, signer_count },
                    ),
                ],
            ),
        )
    }

    /// The transactions that belong to a proposal.
    pub fn get_proposal_multisig_txs(&self, proposal_id: u64) -> (r: Vec<u64>)
        ensures
            r@ == model::list(self@.proposal_txs, proposal_id),
    {
        let mut r: Vec<u64> = Vec::new();
        match self.proposal_txs.get(&proposal_id) {
            None => {},
            Some(ids) => {
                let mut i: usize = 0;
                while i < ids.len()
                    invariant
                        i <= ids@.len(),
                        r@ =~= ids@.take(i as int),
                    decreases ids@.len() - i,
                {
                    r.push(ids[i]);
                    i = i + 1;
                }
            },
        }
        r
    }

    /// The proposal that a transaction belongs to; zero where there is none.
    pub fn get_multisig_tx_proposal(&self, tx_id: u64) -> (r: u64)
        ensures
            r == (if self@.tx_proposal.contains_key(tx_id) {
                self@.tx_proposal[tx_id]
            } else {
                0
            }),
    {
        match self.tx_proposal.get(&tx_id) {
            Some(id) => *id,
            None => 0,
        }
    }

    /// Whether a transaction that belongs to a proposal awaits approval.
    pub fn proposal_has_pending_multisig(&self, proposal_id: u64) -> (r: bool)
        ensures
            r == self@.proposal_has_pending_multisig(proposal_id),
    {
        match self.proposal_txs.get(&proposal_id) {
            None => false,
            Some(ids) => {
                let mut i: usize = 0;
                while i < ids.len()
                    invariant
                        i <= ids@.len(),
                        model::list(self@.proposal_txs, proposal_id) == ids@,
                        forall|j: int| 0 <= j < i ==> !self@.is_pending(#[trigger] ids@[j]),
                    decreases ids@.len() - i,
                {
                    if self.awaits(ids[i]) {
                        assert(self@.is_pending(
                            model::list(self@.proposal_txs, proposal_id)[i as int],
                        ));
                        return true;
                    }
                    i = i + 1;
                }
                false
            },
        }
    }

    /// Whether what call data asks for needs the approval of a wallet as well.
    fn needs_approval(&self, data: &Vec<u8>) -> (r: bool)
        ensures
            r == self@.needs_approval(data@),
    {
        if data.len() < 4 {
            return false;
        }
        match self.requires_multisig(call_data::read_kind(data.as_slice())) {
            Ok(needed) => needed,
            Err(_) => false,
        }
    }

    /// Whether a transaction that belongs to a proposal was approved.
    fn has_approval(&self, proposal_id: u64) -> (r: bool)
        ensures
            r == self@.has_approval(proposal_id),
    {
        match self.proposal_txs.get(&proposal_id) {
            None => false,
            Some(ids) => {
                let mut i: usize = 0;
                while i < ids.len()
                    invariant
                        i <= ids@.len(),
                        model::list(self@.proposal_txs, proposal_id) == ids@,
                        forall|j: int| 0 <= j < i ==> !self@.is_approved(#[trigger] ids@[j]),
                    decreases ids@.len() - i,
                {
                    if self.approved(ids[i]) {
                        assert(self@.is_approved(
                            model::list(self@.proposal_txs, proposal_id)[i as int],
                        ));
                        return true;
                    }
                    i = i + 1;
                }
                false
            },
        }
    }

    /// Whether a transaction was approved.
    fn approved(&self, tx_id: u64) -> (r: bool)
        ensures
            r == self@.is_approved(tx_id),
    {
        match self.txs.get(&tx_id) {
            Some(tx) => tx.status == MultiSigTxStatus::Approved || tx.status
                == MultiSigTxStatus::Executed,
            None => false,
        }
    }

    fn _get_multisig_config(&self, wallet_id: u32) -> (r: Result<MultiSigConfig, Error>)
        ensures
            crate::error::seen(r) == self@.get_multisig_config(wallet_id),
    {
        match self.wallets.get(&wallet_id) {
            None => Err(Error::WalletNotFound),
            Some(c) => Ok(
                MultiSigConfig {
                    id: c.id,
                    threshold: c.threshold,
                    signers: addresses_of(&c.signers),
                    scope: c.scope,
                    active: c.active,
                },
            ),
        }
    }

    fn _get_multisig_tx(&self, tx_id: u64) -> (r: Result<MultiSigTx, Error>)
        ensures
            crate::error::seen(r) == self@.get_multisig_tx_status(tx_id),
    {
        match self.txs.get(&tx_id) {
            None => Err(Error::TxNotFound),
            Some(t) => Ok(
                MultiSigTx {
                    id: t.id,
                    wallet_id: t.wallet_id,
                    proposal_id: t.proposal_id,
                    target: t.target,
                    function_name: t.function_name,
                    call_data: bytes_of(&t.call_data),
                    approvals: t.approvals,
                    rejections: t.rejections,
                    status: t.status,
                    created_at: t.created_at,
                },
            ),
        }
    }

    fn _require_dao(&self, caller: Address) -> (r: Result<(), Error>)
        ensures
            r == match self@.dao_error(caller) {
                None => Ok::<(), Error>(()),
                Some(e) => Err(e),
            },
    {
        match self.dao {
            None => Err(Error::NotInitialised),
            Some(dao) => if caller == dao {
                Ok(())
            } else {
                Err(Error::DaoOnly)
            },
        }
    }

    fn _oracle(&self) -> (r: Result<Address, Error>)
        ensures
            r == match self@.oracle {
                Some(a) => Ok::<Address, Error>(a),
                None => Err(Error::OracleNotConfigured),
            },
    {
        match self.oracle {
            Some(a) => Ok(a),
            None => Err(Error::OracleNotConfigured),
        }
    }

    fn _engine(&self) -> (r: Result<Address, Error>)
        ensures
            r == match self@.cdp {
                Some(a) => Ok::<Address, Error>(a),
                None => Err(Error::NotInitialised),
            },
    {
        match self.cdp {
            Some(a) => Ok(a),
            None => Err(Error::NotInitialised),
        }
    }

    fn _partner_registry(&self) -> (r: Result<Address, Error>)
        ensures
            r == match self@.partner_registry {
                Some(a) => Ok::<Address, Error>(a),
                None => Err(Error::PartnerRegistryNotConfigured),
            },
    {
        match self.partner_registry {
            Some(a) => Ok(a),
            None => Err(Error::PartnerRegistryNotConfigured),
        }
    }

    fn _compliance(&self) -> (r: Result<Address, Error>)
        ensures
            r == match self@.compliance {
                Some(a) => Ok::<Address, Error>(a),
                None => Err(Error::ComplianceNotConfigured),
            },
    {
        match self.compliance {
            Some(a) => Ok(a),
            None => Err(Error::ComplianceNotConfigured),
        }
    }
}

} // verus!
