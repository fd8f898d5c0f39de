//! What the calls on the governance contract leave, told from the proposals, the
//! votes, the wallets and the transactions that it stores.
use crate::dao_governance::call_data;
use crate::dao_governance::call_data::{Action, ActionView};
use crate::dao_governance::model;
use crate::dao_governance::model::{
    EffectView, GovernanceState, MultiSigConfigView, MultiSigTxView, ProposalView,
};
use crate::dao_governance::payloads;
use crate::dao_governance::{
    CancelledEvent, Effect, ExecutedEvent, MultiSigApprovalInfo, MultiSigApprovedEvent,
    MultiSigCreatedEvent, MultiSigExecutedEvent, MultiSigScope, MultiSigTxStatus,
    MultiSigTxSummary, ProposalStatus, ProposedEvent, VotedEvent,
};
use crate::error::Error;
use crate::types::{Address, Context, Symbol, WasmHash};
use vstd::prelude::*;

verus! {

/// An effect that tells no name.
pub open spec fn told(effect: Effect) -> EffectView {
    EffectView::Other(effect)
}

/// The numbers on a list; none where there is no list.
pub open spec fn numbers<K>(lists: Map<K, Seq<u64>>, key: K) -> Seq<u64> {
    if lists.contains_key(key) {
        lists[key]
    } else {
        Seq::empty()
    }
}

/// The address signs for the first wallet, which is in use.
pub open spec fn seated(s: GovernanceState, a: Address) -> bool {
    &&& s.wallets.contains_key(0)
    &&& s.wallets[0].active
    &&& s.wallets[0].signers.contains(a)
}

// ── Proposals ─────────────────────────────────────────────────────

/// A proposal as it is made: nobody voted yet, the ballot takes two days, and
/// another day passes before it can be carried out.
pub open spec fn proposal(
    s: GovernanceState,
    env: Context,
    proposer: Address,
    title: Seq<u8>,
    description: Seq<u8>,
    data: Seq<u8>,
) -> ProposalView {
    ProposalView {
        id: s.proposal_count,
        proposer,
        title,
        description,
        call_data: data,
        yes_votes: 0,
        no_votes: 0,
        start_time: env.timestamp,
        end_time: (env.timestamp + 172_800) as u64,
        execute_after: (env.timestamp + 259_200) as u64,
        status: ProposalStatus::Active,
    }
}

/// A signer of the first wallet proposes; the proposal gets the next number.
pub proof fn law_propose(
    s: GovernanceState,
    env: Context,
    proposer: Address,
    title: Seq<u8>,
    description: Seq<u8>,
    data: Seq<u8>,
)
    ensures
        ({
            let id = s.proposal_count;
            let step = s.propose(env, proposer, title, description, data);
            &&& step is Ok <==> {
                &&& seated(s, proposer)
                &&& env.timestamp + 259_200 <= 0xffff_ffff_ffff_ffff
                &&& id < 0xffff_ffff_ffff_ffff
            }
            &&& step matches Ok((t, given, effects)) ==> {
                &&& given == id
                &&& t == (GovernanceState {
                    proposals: s.proposals.insert(
                        id,
                        proposal(s, env, proposer, title, description, data),
                    ),
                    proposal_count: (id + 1) as u64,
                    ..s
                })
                &&& effects == seq![
                    told(Effect::RequireAuth(proposer)),
                    told(Effect::Proposed(ProposedEvent { proposer, proposal_id: id })),
                ]
            }
            &&& !seated(s, proposer) ==> step == Err::<
                (GovernanceState, u64, Seq<EffectView>),
                Error,
            >(Error::OnlyGovernanceSigners)
        }),
{
}

/// A signer of the first wallet votes once on a proposal that is open; the vote
/// weighs one, on the side that it is for.
pub proof fn law_vote(s: GovernanceState, voter: Address, id: u64, support: bool)
    ensures
        ({
            let p = s.proposals[id];
            let step = s.vote(voter, id, support);
            &&& step is Ok <==> {
                &&& seated(s, voter)
                &&& s.proposals.contains_key(id)
                &&& p.status == ProposalStatus::Active
                &&& !s.voted.contains_key((id, voter))
                &&& support ==> p.yes_votes < i128::MAX
                &&& !support ==> p.no_votes < i128::MAX
            }
            &&& step matches Ok((t, effects)) ==> {
                &&& t.voted == s.voted.insert((id, voter), true)
                &&& support ==> t.proposals == s.proposals.insert(
                    id,
                    ProposalView { yes_votes: (p.yes_votes + 1) as i128, ..p },
                )
                &&& !support ==> t.proposals == s.proposals.insert(
                    id,
                    ProposalView { no_votes: (p.no_votes + 1) as i128, ..p },
                )
                &&& t == (GovernanceState { voted: t.voted, proposals: t.proposals, ..s })
                &&& effects == seq![
                    told(Effect::RequireAuth(voter)),
                    told(
                        Effect::Voted(VotedEvent { voter, proposal_id: id, support, weight: 1 }),
                    ),
                ]
            }
            &&& step matches Err(e) ==> e == (if !seated(s, voter) {
                Error::OnlyGovernanceSigners
            } else if !s.proposals.contains_key(id) {
                Error::ProposalNotFound
            } else if p.status != ProposalStatus::Active {
                Error::ProposalNotActive
            } else if s.voted.contains_key((id, voter)) {
                Error::AlreadyVoted
            } else {
                Error::Arithmetic
            })
        }),
{
}

/// An open proposal passes once it has as many votes as the first wallet asks
/// for.
pub proof fn law_finalise(s: GovernanceState, id: u64)
    ensures
        ({
            let p = s.proposals[id];
            let step = s.finalise(id);
            &&& step is Ok <==> {
                &&& s.proposals.contains_key(id)
                &&& p.status == ProposalStatus::Active
                &&& s.wallets.contains_key(0)
                &&& p.yes_votes >= s.wallets[0].threshold
            }
            &&& step matches Ok((t, effects)) ==> {
                &&& t == (GovernanceState {
                    proposals: s.proposals.insert(
                        id,
                        ProposalView { status: ProposalStatus::Passed, ..p },
                    ),
                    ..s
                })
                &&& effects.len() == 0
            }
            &&& step matches Err(e) ==> e == (if !s.proposals.contains_key(id) {
                Error::ProposalNotFound
            } else if p.status != ProposalStatus::Active {
                Error::NotActive
            } else if !s.wallets.contains_key(0) {
                Error::WalletNotFound
            } else {
                Error::ThresholdNotReached
            })
        }),
{
}

/// The kinds of action are numbered bits of a mask; those whose bit is set ask
/// for the approval of a wallet.
pub open spec fn masked(s: GovernanceState, data: Seq<u8>) -> bool {
    let mask = if s.multisig_mask is Some {
        s.multisig_mask->0
    } else {
        0x1_9fc7
    };
    let kind = payloads::word(data, 0);
    data.len() >= 4 && kind < 32 && mask & (1u32 << (kind as u32)) != 0
}

/// A wallet approved of a transaction that belongs to the proposal.
pub open spec fn cleared(s: GovernanceState, id: u64) -> bool {
    exists|i: int|
        0 <= i < numbers(s.proposal_txs, id).len() && {
            let tx = #[trigger] numbers(s.proposal_txs, id)[i];
            &&& s.txs.contains_key(tx)
            &&& s.txs[tx].status == MultiSigTxStatus::Approved || s.txs[tx].status
                == MultiSigTxStatus::Executed
        }
}

proof fn lemma_cleared(s: GovernanceState, id: u64)
    ensures
        cleared(s, id) == s.has_approval(id),
{
    if cleared(s, id) {
        let i = choose|i: int|
            0 <= i < numbers(s.proposal_txs, id).len() && {
                let tx = #[trigger] numbers(s.proposal_txs, id)[i];
                &&& s.txs.contains_key(tx)
                &&& s.txs[tx].status == MultiSigTxStatus::Approved || s.txs[tx].status
                    == MultiSigTxStatus::Executed
            };
        assert(s.is_approved(model::list(s.proposal_txs, id)[i]));
    }
    if s.has_approval(id) {
        let i = choose|i: int|
            0 <= i < model::list(s.proposal_txs, id).len() && s.is_approved(
                #[trigger] model::list(s.proposal_txs, id)[i],
            );
        assert(s.txs.contains_key(numbers(s.proposal_txs, id)[i]));
    }
}

/// A proposal is carried out once: when it has the votes, its time has come and,
/// where its kind asks for that, a wallet approved. What it asks for is done,
/// between the executor's word and the notice.
pub proof fn law_execute(s: GovernanceState, env: Context, executor: Address, id: u64)
    ensures
        ({
            let p = s.proposals[id];
            let done = s.apply_call_data(env, p.call_data, executor);
            let step = s.execute(env, executor, id);
            let ready = {
                &&& s.proposals.contains_key(id)
                &&& p.status == ProposalStatus::Active || p.status == ProposalStatus::Passed
                &&& s.wallets.contains_key(0)
                &&& p.yes_votes >= s.wallets[0].threshold
                &&& env.timestamp >= p.execute_after
                &&& masked(s, p.call_data) ==> cleared(s, id)
            };
            &&& step is Ok <==> {
                &&& ready
                &&& p.call_data.len() > 0 ==> s.cdp is Some
                &&& done is Ok
            }
            &&& step matches Ok((t, effects)) ==> {
                let after = done->Ok_0.0;
                &&& t == (GovernanceState {
                    proposals: after.proposals.insert(
                        id,
                        ProposalView { status: ProposalStatus::Executed, ..after.proposals[id] },
                    ),
                    ..after
                })
                &&& effects == seq![told(Effect::RequireAuth(executor))] + done->Ok_0.1 + seq![
                    told(Effect::Executed(ExecutedEvent { proposal_id: id })),
                ]
            }
            &&& !ready ==> step == Err::<(GovernanceState, Seq<EffectView>), Error>(
                if !s.proposals.contains_key(id) {
                    Error::ProposalNotFound
                } else if p.status != ProposalStatus::Active && p.status
                    != ProposalStatus::Passed {
                    Error::ProposalNotExecutable
                } else if !s.wallets.contains_key(0) {
                    Error::WalletNotFound
                } else if p.yes_votes < s.wallets[0].threshold {
                    Error::ThresholdNotReached
                } else if env.timestamp < p.execute_after {
                    Error::TimelockNotExpired
                } else {
                    Error::MultisigRequired
                },
            )
        }),
{
    let data = s.proposals[id].call_data;
    lemma_cleared(s, id);
    if data.len() >= 4 {
        payloads::lemma_kind(data);
    }
}

/// Whoever made a proposal calls it off while it is open.
pub proof fn law_cancel(s: GovernanceState, proposer: Address, id: u64)
    ensures
        ({
            let p = s.proposals[id];
            let step = s.cancel(proposer, id);
            &&& step is Ok <==> {
                &&& s.proposals.contains_key(id)
                &&& p.proposer == proposer
                &&& p.status == ProposalStatus::Active
            }
            &&& step matches Ok((t, effects)) ==> {
                &&& t == (GovernanceState {
                    proposals: s.proposals.insert(
                        id,
                        ProposalView { status: ProposalStatus::Cancelled, ..p },
                    ),
                    ..s
                })
                &&& effects == seq![
                    told(Effect::RequireAuth(proposer)),
                    told(Effect::Cancelled(CancelledEvent { proposal_id: id })),
                ]
            }
            &&& step matches Err(e) ==> e == (if !s.proposals.contains_key(id) {
                Error::ProposalNotFound
            } else if p.proposer != proposer {
                Error::OnlyProposer
            } else {
                Error::NotActive
            })
        }),
{
}

// ── What is asked for ─────────────────────────────────────────────

/// What call data asks for is done as the action that it decodes to. The
/// contract that a kind is for must be known before its fields are read.
pub proof fn law_apply(s: GovernanceState, env: Context, data: Seq<u8>, caller: Address)
    ensures
        ({
            let kind = payloads::word(data, 0);
            let step = s.apply_call_data(env, data, caller);
            &&& data.len() < 4 ==> (step matches Ok((t, effects)) && t == s && effects.len() == 0)
            &&& data.len() >= 4 ==> {
                let unknown = {
                    ||| (kind == 0 || kind == 13) && s.cdp is None
                    ||| (kind == 1 || kind == 3 || kind == 14 || kind == 15)
                        && s.partner_registry is None
                    ||| kind == 5 && s.lp_contract is None
                    ||| (kind == 11 || kind == 12) && s.compliance is None
                };
                &&& unknown ==> step == Err::<(GovernanceState, Seq<EffectView>), Error>(
                    if kind == 0 || kind == 13 {
                        Error::NotInitialised
                    } else if kind == 5 {
                        Error::LiquidityPoolNotConfigured
                    } else if kind == 11 || kind == 12 {
                        Error::ComplianceNotConfigured
                    } else {
                        Error::PartnerRegistryNotConfigured
                    },
                )
                &&& !unknown ==> match call_data::decode(data) {
                    Ok(action) => step == s.perform(env, caller, action),
                    Err(e) => step == Err::<(GovernanceState, Seq<EffectView>), Error>(e),
                }
            }
        }),
{
    if data.len() >= 4 {
        payloads::lemma_kind(data);
    }
}

/// The action changes nothing here and has the one effect, provided that the
/// contract which it is for is known.
pub open spec fn forwards(
    s: GovernanceState,
    env: Context,
    caller: Address,
    action: Action,
    known: Option<Address>,
    missing: Error,
    effect: Effect,
) -> bool {
    let step = s.perform(env, caller, ActionView::Other(action));
    &&& known is Some ==> step == Ok::<(GovernanceState, Seq<EffectView>), Error>(
        (s, seq![told(effect)]),
    )
    &&& known is None ==> step == Err::<(GovernanceState, Seq<EffectView>), Error>(missing)
}

/// What is asked of the engine and the pools is asked in the caller's name: a
/// market with its collateral token, a collateral token, a pool.
pub proof fn law_perform_markets(
    s: GovernanceState,
    env: Context,
    caller: Address,
    symbol: Symbol,
    token: Address,
    oracle_sym: Symbol,
    coll_token: Address,
    coll_oracle: Symbol,
    min_cr: i128,
    liq_cr: i128,
    liq_penalty: i128,
    stab_fee_bps: i128,
    debt_ceiling: i128,
    allowed: bool,
)
    ensures
        ({
            let engine = s.cdp->0;
            let step = s.perform(
                env,
                caller,
                ActionView::Other(
                    Action::DeployAsset {
                        symbol,
                        token,
                        oracle_sym,
                        coll_token,
                        coll_oracle,
                        min_cr,
                        liq_cr,
                        liq_penalty,
                        stab_fee_bps,
                        debt_ceiling,
                    },
                ),
            );
            &&& s.cdp is None ==> step == Err::<(GovernanceState, Seq<EffectView>), Error>(
                Error::NotInitialised,
            )
            &&& s.cdp is Some ==> step == Ok::<(GovernanceState, Seq<EffectView>), Error>(
                (
                    s,
                    seq![
                        told(
                            Effect::RegisterAsset {
                                engine,
                                dao: caller,
                                symbol,
                                token,
                                oracle_sym,
                                coll_oracle,
                                min_cr,
                                liq_cr,
                                liq_penalty,
                                stab_fee_bps,
                                debt_ceiling,
                            },
                        ),
                        told(
                            Effect::SetCollateralAllowed {
                                engine,
                                dao: caller,
                                token: coll_token,
                                allowed: true,
                            },
                        ),
                    ],
                ),
            )
        }),
        forwards(
            s,
            env,
            caller,
            Action::SetCollateralAllowed { token, allowed },
            s.cdp,
            Error::NotInitialised,
            Effect::SetCollateralAllowed { engine: s.cdp->0, dao: caller, token, allowed },
        ),
        forwards(
            s,
            env,
            caller,
            Action::CreatePool {
                pool_id: symbol,
                token_a: token,
                token_b: coll_token,
                fee_tier: min_cr,
            },
            s.lp_contract,
            Error::LiquidityPoolNotConfigured,
            Effect::CreatePool {
                pool: s.lp_contract->0,
                creator: caller,
                pool_id: symbol,
                token_a: token,
                token_b: coll_token,
                fee_tier: min_cr,
            },
        ),
{
}

/// What is asked of the partner registry and the oracle is asked in the name of
/// this contract; what is asked of the compliance registry, in the caller's.
pub proof fn law_perform_registries(
    s: GovernanceState,
    env: Context,
    caller: Address,
    partner_id: u32,
    share: i128,
    owner: Address,
    name: Seq<char>,
    symbol: Symbol,
)
    ensures
        forwards(
            s,
            env,
            caller,
            Action::Deactivate { partner_id },
            s.partner_registry,
            Error::PartnerRegistryNotConfigured,
            Effect::DeactivatePartner {
                registry: s.partner_registry->0,
                dao: env.contract,
                partner_id,
            },
        ),
        forwards(
            s,
            env,
            caller,
            Action::AdjustEarnings { partner_id, new_share: share },
            s.partner_registry,
            Error::PartnerRegistryNotConfigured,
            Effect::SetPartnerShare {
                registry: s.partner_registry->0,
                dao: env.contract,
                partner_id,
                new_share: share,
            },
        ),
        forwards(
            s,
            env,
            caller,
            Action::ActivatePartnerAsset { symbol },
            s.partner_registry,
            Error::PartnerRegistryNotConfigured,
            Effect::ActivatePartnerAsset {
                registry: s.partner_registry->0,
                dao: env.contract,
                symbol,
            },
        ),
        s.partner_registry is Some ==> s.perform(
            env,
            caller,
            ActionView::RegisterPartner { owner, name },
        ) == Ok::<(GovernanceState, Seq<EffectView>), Error>(
            (
                s,
                seq![
                    EffectView::RegisterPartner {
                        registry: s.partner_registry->0,
                        dao: env.contract,
                        owner,
                        name,
                    },
                ],
            ),
        ),
        s.partner_registry is None ==> s.perform(
            env,
            caller,
            ActionView::RegisterPartner { owner, name },
        ) == Err::<(GovernanceState, Seq<EffectView>), Error>(Error::PartnerRegistryNotConfigured),
        forwards(
            s,
            env,
            caller,
            Action::OracleAddProvider { provider: owner },
            s.oracle,
            Error::OracleNotConfigured,
            Effect::AddProvider { oracle: s.oracle->0, dao: env.contract, provider: owner },
        ),
        forwards(
            s,
            env,
            caller,
            Action::OracleRemoveProvider { provider: owner },
            s.oracle,
            Error::OracleNotConfigured,
            Effect::RemoveProvider { oracle: s.oracle->0, dao: env.contract, provider: owner },
        ),
        forwards(
            s,
            env,
            caller,
            Action::OracleSetMinProviders { min_providers: partner_id },
            s.oracle,
            Error::OracleNotConfigured,
            Effect::SetMinProviders {
                oracle: s.oracle->0,
                dao: env.contract,
                min_providers: partner_id,
            },
        ),
        forwards(
            s,
            env,
            caller,
            Action::KycAddVerifier { verifier: owner },
            s.compliance,
            Error::ComplianceNotConfigured,
            Effect::AddVerifier { compliance: s.compliance->0, dao: caller, verifier: owner },
        ),
        forwards(
            s,
            env,
            caller,
            Action::KycRemoveVerifier { verifier: owner },
            s.compliance,
            Error::ComplianceNotConfigured,
            Effect::RemoveVerifier { compliance: s.compliance->0, dao: caller, verifier: owner },
        ),
{
}

/// An upgrade of this contract replaces its own code; of any other, asks that
/// one. Parameters are set by number, and the ratios where they are given;
/// nothing else changes, and nothing is done where nothing is asked for.
pub proof fn law_perform_here(
    s: GovernanceState,
    env: Context,
    caller: Address,
    target: Address,
    hash: WasmHash,
    param_id: u8,
    value: i128,
    ratio: Option<i128>,
    penalty: Option<i128>,
)
    ensures
        s.perform(
            env,
            caller,
            ActionView::Other(Action::UpgradeContract { target, wasm_hash: hash }),
        ) == Ok::<(GovernanceState, Seq<EffectView>), Error>(
            (
                s,
                seq![
                    if target == env.contract {
                        told(Effect::UpdateWasm(hash))
                    } else {
                        told(
                            Effect::UpgradeContract {
                                target,
                                dao: env.contract,
                                new_wasm_hash: hash,
                            },
                        )
                    },
                ],
            ),
        ),
        s.perform(env, caller, ActionView::Other(Action::SetParam { param_id, value })) matches Ok(
            (t, effects),
        ) && {
            &&& effects.len() == 0
            &&& param_id == 0 ==> t == (GovernanceState { param_cr: Some(value), ..s })
            &&& param_id == 1 ==> t == (GovernanceState { param_borrow_fee: Some(value), ..s })
            &&& param_id == 2 ==> t == (GovernanceState { param_liq_penalty: Some(value), ..s })
            &&& param_id > 2 ==> t == s
        },
        s.perform(
            env,
            caller,
            ActionView::Other(Action::AdjustRatio { new_cr: ratio, new_penalty: penalty }),
        ) matches Ok((t, effects)) && {
            &&& effects.len() == 0
            &&& t.param_cr == (if ratio is Some {
                ratio
            } else {
                s.param_cr
            })
            &&& t.param_liq_penalty == (if penalty is Some {
                penalty
            } else {
                s.param_liq_penalty
            })
            &&& t == (GovernanceState {
                param_cr: t.param_cr,
                param_liq_penalty: t.param_liq_penalty,
                ..s
            })
        },
        s.perform(env, caller, ActionView::Other(Action::Nothing)) matches Ok((t, effects)) && t
            == s && effects.len() == 0,
{
}

// ── Wallets ───────────────────────────────────────────────────────

/// A new wallet asks for at least one of its signers, and for no more than it
/// has, of which there are at most fifteen. It gets the next number, and each
/// signer its place.
pub proof fn law_create_wallet(
    s: GovernanceState,
    dao: Address,
    threshold: u32,
    signers: Seq<Address>,
    scope: MultiSigScope,
    key: (u32, u32),
)
    ensures
        ({
            let id = s.wallet_count;
            let own = key.0 == id && key.1 < signers.len();
            let step = s.create_multisig(dao, threshold, signers, scope);
            &&& step is Ok <==> {
                &&& s.dao == Some(dao)
                &&& 1 <= threshold <= signers.len() <= 15
                &&& id < 0xffff_ffff
            }
            &&& step matches Ok((t, given, effects)) ==> {
                &&& given == id
                &&& t == (GovernanceState {
                    wallets: s.wallets.insert(
                        id,
                        MultiSigConfigView { id, threshold, signers, scope, active: true },
                    ),
                    wallet_count: (id + 1) as u32,
                    signer_index: t.signer_index,
                    ..s
                })
                &&& t.signer_index.contains_key(key) <==> own || s.signer_index.contains_key(key)
                &&& own ==> t.signer_index[key] == signers[key.1 as int]
                &&& !own && s.signer_index.contains_key(key) ==> t.signer_index[key]
                    == s.signer_index[key]
                &&& effects == seq![
                    told(Effect::RequireAuth(dao)),
                    told(
                        Effect::MultiSigCreated(
                            MultiSigCreatedEvent {
                                wallet_id: id,
                                threshold,
                                signer_count: signers.len() as u32,
                            },
                        ),
                    ),
                ]
            }
            &&& s.dao == Some(dao) ==> (step matches Err(e) ==> e == (if threshold == 0 {
                Error::ThresholdNotPositive
            } else if threshold > signers.len() {
                Error::ThresholdExceedsSigners
            } else if signers.len() > 15 {
                Error::TooManySigners
            } else {
                Error::Arithmetic
            }))
        }),
{
}

/// The wallet with one more signer, at the end.
pub open spec fn joined(s: GovernanceState, wallet_id: u32, signer: Address) -> GovernanceState {
    let cfg = s.wallets[wallet_id];
    GovernanceState {
        wallets: s.wallets.insert(
            wallet_id,
            MultiSigConfigView { signers: cfg.signers.push(signer), ..cfg },
        ),
        signer_index: s.signer_index.insert((wallet_id, cfg.signers.len() as u32), signer),
        ..s
    }
}

/// A signer joins a wallet that is in use and has room, on the word of the DAO
/// or by a proposal, and never twice.
pub proof fn law_join(
    s: GovernanceState,
    env: Context,
    dao: Address,
    caller: Address,
    wallet_id: u32,
    signer: Address,
)
    ensures
        ({
            let cfg = s.wallets[wallet_id];
            let room = {
                &&& s.wallets.contains_key(wallet_id)
                &&& cfg.active
                &&& !cfg.signers.contains(signer)
                &&& cfg.signers.len() < 15
            };
            let asked = s.add_signer_to_wallet(dao, wallet_id, signer);
            let voted = s.perform(
                env,
                caller,
                ActionView::Other(Action::AddSigner { wallet_id, signer }),
            );
            &&& asked is Ok <==> s.dao == Some(dao) && room
            &&& s.dao is Some && s.dao != Some(dao) ==> (asked matches Err(e) && e
                == Error::DaoOnly)
            &&& s.dao == Some(dao) ==> (asked matches Err(e) ==> e == (if !s.wallets.contains_key(
                wallet_id,
            ) {
                Error::WalletNotFound
            } else if !cfg.active {
                Error::WalletInactive
            } else if cfg.signers.contains(signer) {
                Error::AlreadySigner
            } else {
                Error::TooManySigners
            }))
            &&& voted matches Err(e) ==> e == (if !s.wallets.contains_key(wallet_id) {
                Error::WalletNotFound
            } else if !cfg.active {
                Error::WalletInactive
            } else if cfg.signers.len() >= 15 {
                Error::TooManySigners
            } else {
                Error::AlreadySigner
            })
            &&& asked matches Ok((t, effects)) ==> {
                &&& t == joined(s, wallet_id, signer)
                &&& effects == seq![
                    told(Effect::RequireAuth(dao)),
                    told(
                        Effect::MultiSigCreated(
                            MultiSigCreatedEvent {
                                wallet_id,
                                threshold: cfg.threshold,
                                signer_count: (cfg.signers.len() + 1) as u32,
                            },
                        ),
                    ),
                ]
            }
            &&& voted is Ok <==> room
            &&& voted matches Ok((t, effects)) ==> t == joined(s, wallet_id, signer)
                && effects.len() == 0
        }),
{
}

/// A signer leaves a wallet that is in use and has more signers than it asks
/// for, on the word of the DAO or by a proposal. Those behind move up one place,
/// and the last place is free.
pub proof fn law_leave(
    s: GovernanceState,
    env: Context,
    dao: Address,
    caller: Address,
    wallet_id: u32,
    signer: Address,
    place: int,
    key: (u32, u32),
)
    requires
        s.wallets[wallet_id].signers.contains(signer) ==> {
            &&& 0 <= place < s.wallets[wallet_id].signers.len()
            &&& s.wallets[wallet_id].signers[place] == signer
            &&& forall|i: int| 0 <= i < place ==> s.wallets[wallet_id].signers[i] != signer
        },
    ensures
        ({
            let cfg = s.wallets[wallet_id];
            let fine = {
                &&& s.wallets.contains_key(wallet_id)
                &&& cfg.active
                &&& cfg.signers.len() > cfg.threshold
                &&& cfg.signers.len() <= 0xffff_ffff
                &&& cfg.signers.contains(signer)
            };
            let left = cfg.signers.remove(place);
            let asked = s.remove_signer_from_wallet(dao, wallet_id, signer);
            let voted = s.perform(
                env,
                caller,
                ActionView::Other(Action::RemoveSigner { wallet_id, signer }),
            );
            &&& voted is Ok <==> fine
            &&& voted matches Ok((t, effects)) ==> {
                &&& effects.len() == 0
                &&& t == (GovernanceState {
                    wallets: s.wallets.insert(
                        wallet_id,
                        MultiSigConfigView { signers: left, ..cfg },
                    ),
                    signer_index: t.signer_index,
                    ..s
                })
                &&& key.0 == wallet_id && key.1 < left.len() ==> t.signer_index.contains_key(key)
                    && t.signer_index[key] == left[key.1 as int]
                &&& key.0 == wallet_id && key.1 == left.len() ==> !t.signer_index.contains_key(key)
                &&& key.0 != wallet_id || key.1 > left.len() ==> {
                    &&& t.signer_index.contains_key(key) == s.signer_index.contains_key(key)
                    &&& s.signer_index.contains_key(key) ==> t.signer_index[key]
                        == s.signer_index[key]
                }
            }
            &&& voted matches Err(e) ==> e == (if !s.wallets.contains_key(wallet_id) {
                Error::WalletNotFound
            } else if !cfg.active {
                Error::WalletInactive
            } else if cfg.signers.len() > 0xffff_ffff {
                Error::Arithmetic
            } else if cfg.signers.len() <= cfg.threshold {
                Error::BelowThreshold
            } else {
                Error::SignerNotFound
            })
            &&& s.dao == Some(dao) ==> (asked matches Err(e) ==> (voted matches Err(f) && e == f))
            &&& s.dao is Some && s.dao != Some(dao) ==> (asked matches Err(e) && e
                == Error::DaoOnly)
            &&& asked is Ok <==> s.dao == Some(dao) && fine
            &&& asked matches Ok((t, effects)) ==> {
                &&& voted is Ok && t == voted->Ok_0.0
                &&& effects == seq![told(Effect::RequireAuth(dao))]
            }
        }),
{
    let signers = s.wallets[wallet_id].signers;
    if signers.contains(signer) {
        assert(model::is_first(signers, signer, place));
        model::lemma_without(signers, signer, place);
    }
}

// ── Transactions of wallets ───────────────────────────────────────

/// The contract with one more transaction that waits for a wallet, on the lists
/// of the wallet and of the proposal.
pub open spec fn queued(
    s: GovernanceState,
    env: Context,
    wallet_id: u32,
    proposal_id: u64,
    target: Address,
    function_name: Symbol,
    data: Seq<u8>,
) -> GovernanceState {
    let id = s.tx_count;
    GovernanceState {
        txs: s.txs.insert(
            id,
            MultiSigTxView {
                id,
                wallet_id,
                proposal_id,
                target,
                function_name,
                call_data: data,
                approvals: 0,
                rejections: 0,
                status: MultiSigTxStatus::Pending,
                created_at: env.timestamp,
            },
        ),
        tx_count: (id + 1) as u64,
        tx_proposal: s.tx_proposal.insert(id, proposal_id),
        wallet_txs: s.wallet_txs.insert(wallet_id, numbers(s.wallet_txs, wallet_id).push(id)),
        proposal_txs: s.proposal_txs.insert(
            proposal_id,
            numbers(s.proposal_txs, proposal_id).push(id),
        ),
        ..s
    }
}

/// A transaction is handed to a wallet that is in use, under the next number.
pub proof fn law_submit(
    s: GovernanceState,
    env: Context,
    submitter: Address,
    wallet_id: u32,
    proposal_id: u64,
    target: Address,
    function_name: Symbol,
    data: Seq<u8>,
)
    ensures
        ({
            let step = s.submit_multisig_tx(
                env,
                submitter,
                wallet_id,
                proposal_id,
                target,
                function_name,
                data,
            );
            &&& step is Ok <==> {
                &&& s.wallets.contains_key(wallet_id)
                &&& s.wallets[wallet_id].active
                &&& s.tx_count < 0xffff_ffff_ffff_ffff
            }
            &&& step matches Ok((t, id, effects)) ==> {
                &&& id == s.tx_count
                &&& t == queued(s, env, wallet_id, proposal_id, target, function_name, data)
                &&& effects == seq![told(Effect::RequireAuth(submitter))]
            }
            &&& step matches Err(e) ==> e == (if !s.wallets.contains_key(wallet_id) {
                Error::WalletNotFound
            } else if !s.wallets[wallet_id].active {
                Error::WalletInactive
            } else {
                Error::Arithmetic
            })
        }),
{
}

/// A proposal and a transaction for it come in one call as they do in two: the
/// proposal, and the transaction on its number and with its call data.
pub proof fn law_propose_and_queue(
    s: GovernanceState,
    env: Context,
    proposer: Address,
    title: Seq<u8>,
    description: Seq<u8>,
    data: Seq<u8>,
    wallet_id: u32,
    target: Address,
    function_name: Symbol,
)
    ensures
        ({
            let both = s.propose_and_queue_multisig(
                env,
                proposer,
                title,
                description,
                data,
                wallet_id,
                target,
                function_name,
            );
            let first = s.propose(env, proposer, title, description, data);
            let second = first->Ok_0.0.submit_multisig_tx(
                env,
                proposer,
                wallet_id,
                s.proposal_count,
                target,
                function_name,
                data,
            );
            let cfg = s.wallets[wallet_id];
            &&& both is Ok <==> first is Ok && second is Ok
            &&& both matches Ok((t, ids, effects)) ==> {
                &&& t == second->Ok_0.0
                &&& ids == seq![s.proposal_count, s.tx_count]
                &&& effects == first->Ok_0.2.push(
                    told(
                        Effect::MultiSigCreated(
                            MultiSigCreatedEvent {
                                wallet_id,
                                threshold: cfg.threshold,
                                signer_count: cfg.signers.len() as u32,
                            },
                        ),
                    ),
                )
            }
        }),
{
    let first = s.propose(env, proposer, title, description, data);
    let both = s.propose_and_queue_multisig(
        env,
        proposer,
        title,
        description,
        data,
        wallet_id,
        target,
        function_name,
    );
    if both is Ok {
        assert(first->Ok_0.2.len() == 2);
    }
}

/// A signer of the wallet says once what they think of a transaction that waits.
/// It is approved when as many approve as the wallet asks for, and rejected when
/// so many reject that this cannot come any more.
pub proof fn law_approve(s: GovernanceState, signer: Address, id: u64, approve: bool)
    ensures
        ({
            let tx = s.txs[id];
            let cfg = s.wallets[tx.wallet_id];
            let yes = if approve {
                tx.approvals + 1
            } else {
                tx.approvals as int
            };
            let no = if approve {
                tx.rejections as int
            } else {
                tx.rejections + 1
            };
            let step = s.approve_multisig_tx(signer, id, approve);
            &&& step is Ok <==> {
                &&& s.txs.contains_key(id)
                &&& tx.status == MultiSigTxStatus::Pending
                &&& s.wallets.contains_key(tx.wallet_id)
                &&& cfg.signers.contains(signer)
                &&& !s.approvals.contains_key((id, signer))
                &&& yes <= 0xffff_ffff
                &&& no <= 0xffff_ffff
                &&& yes >= cfg.threshold || cfg.signers.len() >= cfg.threshold
            }
            &&& step matches Ok((t, effects)) ==> {
                &&& t == (GovernanceState {
                    approvals: s.approvals.insert((id, signer), approve),
                    txs: s.txs.insert(
                        id,
                        MultiSigTxView {
                            approvals: yes as u32,
                            rejections: no as u32,
                            status: if yes >= cfg.threshold {
                                MultiSigTxStatus::Approved
                            } else if no + cfg.threshold > cfg.signers.len() {
                                MultiSigTxStatus::Rejected
                            } else {
                                MultiSigTxStatus::Pending
                            },
                            ..tx
                        },
                    ),
                    ..s
                })
                &&& effects == seq![
                    told(Effect::RequireAuth(signer)),
                    told(Effect::MultiSigApproved(MultiSigApprovedEvent { tx_id: id, signer })),
                ]
            }
            &&& step matches Err(e) ==> e == (if !s.txs.contains_key(id) {
                Error::TxNotFound
            } else if tx.status != MultiSigTxStatus::Pending {
                Error::TxNotPending
            } else if !s.wallets.contains_key(tx.wallet_id) {
                Error::WalletNotFound
            } else if !cfg.signers.contains(signer) {
                Error::NotASigner
            } else if s.approvals.contains_key((id, signer)) {
                Error::AlreadyVotedOnTx
            } else {
                Error::Arithmetic
            })
        }),
{
}

/// The address that carries out transactions: the wallet that is set, and the
/// DAO where none is.
pub open spec fn operator(s: GovernanceState) -> Option<Address> {
    if s.multisig_wallet is Some {
        s.multisig_wallet
    } else {
        s.dao
    }
}

/// The wallet's address carries out a transaction that is approved or waits,
/// once: what it asks for is done, between the wallet's word and the notice.
pub proof fn law_execute_tx(s: GovernanceState, env: Context, executor: Address, id: u64)
    ensures
        ({
            let tx = s.txs[id];
            let done = s.apply_call_data(env, tx.call_data, executor);
            let step = s.execute_multisig_tx(env, executor, id);
            let ready = {
                &&& s.txs.contains_key(id)
                &&& tx.status == MultiSigTxStatus::Approved || tx.status
                    == MultiSigTxStatus::Pending
                &&& operator(s) == Some(executor)
            };
            &&& step is Ok <==> ready && done is Ok
            &&& step matches Ok((t, effects)) ==> {
                let after = done->Ok_0.0;
                &&& t == (GovernanceState {
                    txs: after.txs.insert(
                        id,
                        MultiSigTxView { status: MultiSigTxStatus::Executed, ..after.txs[id] },
                    ),
                    ..after
                })
                &&& effects == seq![told(Effect::RequireAuth(executor))] + done->Ok_0.1 + seq![
                    told(
                        Effect::MultiSigExecuted(
                            MultiSigExecutedEvent { tx_id: id, proposal_id: tx.proposal_id },
                        ),
                    ),
                ]
            }
            &&& !ready ==> step == Err::<(GovernanceState, Seq<EffectView>), Error>(
                if !s.txs.contains_key(id) {
                    Error::TxNotFound
                } else if tx.status != MultiSigTxStatus::Approved && tx.status
                    != MultiSigTxStatus::Pending {
                    Error::TxAlreadyFinalized
                } else if operator(s) is None {
                    Error::NotInitialised
                } else {
                    Error::OnlyMultisigWallet
                },
            )
        }),
{
}

/// A signer of the wallet calls off a transaction that waits.
pub proof fn law_cancel_tx(s: GovernanceState, signer: Address, id: u64)
    ensures
        ({
            let tx = s.txs[id];
            let step = s.cancel_multisig_tx(signer, id);
            &&& step is Ok <==> {
                &&& s.txs.contains_key(id)
                &&& tx.status == MultiSigTxStatus::Pending
                &&& s.wallets.contains_key(tx.wallet_id)
                &&& s.wallets[tx.wallet_id].signers.contains(signer)
            }
            &&& step matches Ok((t, effects)) ==> {
                &&& t == (GovernanceState {
                    txs: s.txs.insert(
                        id,
                        MultiSigTxView { status: MultiSigTxStatus::Cancelled, ..tx },
                    ),
                    ..s
                })
                &&& effects == seq![told(Effect::RequireAuth(signer))]
            }
            &&& step matches Err(e) ==> e == (if !s.txs.contains_key(id) {
                Error::TxNotFound
            } else if tx.status != MultiSigTxStatus::Pending {
                Error::TxNotPending
            } else if !s.wallets.contains_key(tx.wallet_id) {
                Error::WalletNotFound
            } else {
                Error::NotASigner
            })
        }),
{
}

// ── Setting up and reading ────────────────────────────────────────

/// Setting up stores the DAO and the engine and the parameters at first. The DAO,
/// and nobody else, names the other contracts, sets the mask, asks the oracle and
/// replaces the code; each call changes the one thing that it is about.
pub proof fn law_settings(
    s: GovernanceState,
    env: Context,
    dao: Address,
    a: Address,
    b: Address,
    c: Address,
    d: Address,
    e: Address,
    mask: u32,
    hash: WasmHash,
)
    ensures
        s.initialize(dao, a) == Ok::<(GovernanceState, Seq<EffectView>), Error>(
            (
                GovernanceState {
                    dao: Some(dao),
                    cdp: Some(a),
                    proposal_count: 0,
                    param_cr: Some(15_000),
                    param_borrow_fee: Some(50),
                    param_liq_penalty: Some(1_000),
                    ..s
                },
                seq![told(Effect::RequireAuth(dao))],
            ),
        ),
        s.dao == Some(dao) ==> {
            let word = seq![told(Effect::RequireAuth(dao))];
            &&& s.set_protocol_config(dao, a, b, c, d, e) == Ok::<
                (GovernanceState, Seq<EffectView>),
                Error,
            >(
                (
                    GovernanceState {
                        multisig_wallet: Some(a),
                        lp_contract: Some(b),
                        partner_registry: Some(c),
                        earnings_contract: Some(d),
                        stab_pool_contract: Some(e),
                        ..s
                    },
                    word,
                ),
            )
            &&& s.set_compliance(dao, a) == Ok::<(GovernanceState, Seq<EffectView>), Error>(
                (GovernanceState { compliance: Some(a), ..s }, word),
            )
            &&& s.set_oracle(dao, a) == Ok::<(GovernanceState, Seq<EffectView>), Error>(
                (GovernanceState { oracle: Some(a), ..s }, word),
            )
            &&& s.set_multisig_mask(dao, mask) == Ok::<(GovernanceState, Seq<EffectView>), Error>(
                (GovernanceState { multisig_mask: Some(mask), ..s }, word),
            )
            &&& s.upgrade(dao, hash) == Ok::<(GovernanceState, Seq<EffectView>), Error>(
                (s, word.push(told(Effect::UpdateWasm(hash)))),
            )
            &&& s.oracle is Some ==> {
                let oracle = s.oracle->0;
                let us = env.contract;
                &&& s.add_oracle_provider(env, dao, a) == Ok::<
                    (GovernanceState, Seq<EffectView>),
                    Error,
                >((s, word.push(told(Effect::AddProvider { oracle, dao: us, provider: a }))))
                &&& s.set_oracle_min_providers(env, dao, mask) == Ok::<
                    (GovernanceState, Seq<EffectView>),
                    Error,
                >(
                    (
                        s,
                        word.push(
                            told(Effect::SetMinProviders { oracle, dao: us, min_providers: mask }),
                        ),
                    ),
                )
            }
            &&& s.oracle is None ==> {
                &&& s.add_oracle_provider(env, dao, a) == Err::<
                    (GovernanceState, Seq<EffectView>),
                    Error,
                >(Error::OracleNotConfigured)
                &&& s.set_oracle_min_providers(env, dao, mask) == Err::<
                    (GovernanceState, Seq<EffectView>),
                    Error,
                >(Error::OracleNotConfigured)
            }
        },
        s.dao != Some(dao) ==> {
            let refused = Err::<(GovernanceState, Seq<EffectView>), Error>(
                if s.dao is None {
                    Error::NotInitialised
                } else {
                    Error::DaoOnly
                },
            );
            &&& s.set_protocol_config(dao, a, b, c, d, e) == refused
            &&& s.set_compliance(dao, a) == refused
            &&& s.set_oracle(dao, a) == refused
            &&& s.set_multisig_mask(dao, mask) == refused
            &&& s.upgrade(dao, hash) == refused
            &&& s.add_oracle_provider(env, dao, a) == refused
            &&& s.set_oracle_min_providers(env, dao, mask) == refused
        },
{
    let word = seq![told(Effect::RequireAuth(dao))];
    let one = told(Effect::UpdateWasm(hash));
    let two = told(
        Effect::AddProvider { oracle: s.oracle->0, dao: env.contract, provider: a },
    );
    let three = told(
        Effect::SetMinProviders { oracle: s.oracle->0, dao: env.contract, min_providers: mask },
    );
    assert(word.push(one) =~= seq![word[0], one]);
    assert(word.push(two) =~= seq![word[0], two]);
    assert(word.push(three) =~= seq![word[0], three]);
}

/// At first there is nothing.
pub proof fn law_blank()
    ensures
        ({
            let b = GovernanceState::blank();
            &&& b.dao is None && b.cdp is None && b.multisig_wallet is None
            &&& b.lp_contract is None && b.partner_registry is None
            &&& b.earnings_contract is None && b.stab_pool_contract is None
            &&& b.compliance is None && b.oracle is None && b.multisig_mask is None
            &&& b.param_cr is None && b.param_borrow_fee is None && b.param_liq_penalty is None
            &&& b.proposal_count == 0 && b.wallet_count == 0 && b.tx_count == 0
            &&& b.proposals == Map::<u64, ProposalView>::empty()
            &&& b.voted == Map::<(u64, Address), bool>::empty()
            &&& b.wallets == Map::<u32, MultiSigConfigView>::empty()
            &&& b.signer_index == Map::<(u32, u32), Address>::empty()
            &&& b.txs == Map::<u64, MultiSigTxView>::empty()
            &&& b.approvals == Map::<(u64, Address), bool>::empty()
            &&& b.wallet_txs == Map::<u32, Seq<u64>>::empty()
            &&& b.proposal_txs == Map::<u64, Seq<u64>>::empty()
            &&& b.tx_proposal == Map::<u64, u64>::empty()
        }),
{
}

/// What is read is what is stored.
pub proof fn law_reads(s: GovernanceState, kind: u32, id: u64, wallet_id: u32, a: Address)
    ensures
        s.get_multisig_wallet() == (match operator(s) {
            Some(wallet) => Ok::<Address, Error>(wallet),
            None => Err(Error::NotInitialised),
        }),
        kind < 32 && s.multisig_mask is Some ==> s.requires_multisig(kind) == Ok::<bool, Error>(
            s.multisig_mask->0 & (1u32 << kind) != 0,
        ),
        kind >= 32 ==> s.requires_multisig(kind) == Err::<bool, Error>(Error::Arithmetic),
        s.is_governance_signer(a) <==> seated(s, a),
        s.is_signer_of(wallet_id, a) <==> s.wallets.contains_key(wallet_id)
            && s.wallets[wallet_id].signers.contains(a),
        s.get_proposal(id) == (if s.proposals.contains_key(id) {
            Ok::<ProposalView, Error>(s.proposals[id])
        } else {
            Err(Error::ProposalNotFound)
        }),
        s.get_multisig_config(wallet_id) == (if s.wallets.contains_key(wallet_id) {
            Ok::<MultiSigConfigView, Error>(s.wallets[wallet_id])
        } else {
            Err(Error::WalletNotFound)
        }),
        s.get_signers(wallet_id) == (if s.wallets.contains_key(wallet_id) {
            Ok::<Seq<Address>, Error>(s.wallets[wallet_id].signers)
        } else {
            Err(Error::WalletNotFound)
        }),
        s.get_multisig_tx_status(id) == (if s.txs.contains_key(id) {
            Ok::<MultiSigTxView, Error>(s.txs[id])
        } else {
            Err(Error::TxNotFound)
        }),
        model::list(s.proposal_txs, id) == numbers(s.proposal_txs, id),
        s.proposal_has_pending_multisig(id) <==> exists|i: int|
            0 <= i < numbers(s.proposal_txs, id).len() && {
                let tx = #[trigger] numbers(s.proposal_txs, id)[i];
                s.txs.contains_key(tx) && s.txs[tx].status == MultiSigTxStatus::Pending
            },
{
    if s.proposal_has_pending_multisig(id) {
        let i = choose|i: int|
            0 <= i < model::list(s.proposal_txs, id).len() && s.is_pending(
                #[trigger] model::list(s.proposal_txs, id)[i],
            );
        assert(s.txs.contains_key(numbers(s.proposal_txs, id)[i]));
    }
    if exists|i: int|
        0 <= i < numbers(s.proposal_txs, id).len() && {
            let tx = #[trigger] numbers(s.proposal_txs, id)[i];
            s.txs.contains_key(tx) && s.txs[tx].status == MultiSigTxStatus::Pending
        } {
        let i = choose|i: int|
            0 <= i < numbers(s.proposal_txs, id).len() && {
                let tx = #[trigger] numbers(s.proposal_txs, id)[i];
                s.txs.contains_key(tx) && s.txs[tx].status == MultiSigTxStatus::Pending
            };
        assert(s.is_pending(model::list(s.proposal_txs, id)[i]));
    }
}

/// A transaction at a glance shows what is stored of it and of its wallet; each
/// signer is shown in their place with what they said.
pub proof fn law_tx_reads(s: GovernanceState, id: u64, place: int)
    ensures
        ({
            let tx = s.txs[id];
            let cfg = s.wallets[tx.wallet_id];
            let known = s.txs.contains_key(id) && s.wallets.contains_key(tx.wallet_id);
            &&& known ==> s.get_multisig_tx_summary(id) == Ok::<MultiSigTxSummary, Error>(
                MultiSigTxSummary {
                    tx_id: tx.id,
                    wallet_id: tx.wallet_id,
                    proposal_id: tx.proposal_id,
                    target: tx.target,
                    function_name: tx.function_name,
                    approvals: tx.approvals,
                    rejections: tx.rejections,
                    threshold: cfg.threshold,
                    signer_count: cfg.signers.len() as u32,
                    status: tx.status,
                    created_at: tx.created_at,
                },
            )
            &&& !known ==> s.get_multisig_tx_summary(id) == Err::<MultiSigTxSummary, Error>(
                if s.txs.contains_key(id) {
                    Error::WalletNotFound
                } else {
                    Error::TxNotFound
                },
            )
            &&& !known ==> s.get_multisig_tx_approvals(id) is Err
            &&& s.get_multisig_tx_approvals(id) matches Ok(infos) ==> {
                &&& infos.len() == cfg.signers.len()
                &&& 0 <= place < infos.len() ==> {
                    let signer = s.signer_index[(tx.wallet_id, place as u32)];
                    infos[place] == MultiSigApprovalInfo {
                        signer,
                        approved: s.approvals.contains_key((id, signer)) && s.approvals[(
                            id,
                            signer,
                        )],
                    }
                }
            }
        }),
{
}

/// Of a wallet's transactions those that wait are read, in the order in which
/// they came.
pub proof fn law_pending(s: GovernanceState, wallet_id: u32, ids: Seq<u64>, id: u64)
    requires
        s.wallets.contains_key(wallet_id),
    ensures
        ({
            let with = |list: Seq<u64>|
                (GovernanceState {
                    wallet_txs: s.wallet_txs.insert(wallet_id, list),
                    ..s
                }).get_pending_multisig_txs(wallet_id);
            &&& with(Seq::empty()) == Ok::<Seq<u64>, Error>(Seq::empty())
            &&& with(ids) is Ok
            &&& s.txs.contains_key(id) && s.txs[id].status == MultiSigTxStatus::Pending ==> with(
                ids.push(id),
            ) == Ok::<Seq<u64>, Error>(with(ids)->Ok_0.push(id))
            &&& !s.txs.contains_key(id) || s.txs[id].status != MultiSigTxStatus::Pending ==> with(
                ids.push(id),
            ) == with(ids)
        }),
{
    let p = |i: u64| s.is_pending(i);
    let a = GovernanceState { wallet_txs: s.wallet_txs.insert(wallet_id, ids), ..s };
    let b = GovernanceState { wallet_txs: s.wallet_txs.insert(wallet_id, ids.push(id)), ..s };
    let c = GovernanceState { wallet_txs: s.wallet_txs.insert(wallet_id, Seq::empty()), ..s };
    assert((|i: u64| a.is_pending(i)) =~= p);
    assert((|i: u64| b.is_pending(i)) =~= p);
    assert((|i: u64| c.is_pending(i)) =~= p);
    reveal(Seq::filter);
    assert(ids.push(id).drop_last() =~= ids);
}

} // verus!
