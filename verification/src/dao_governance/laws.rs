//! What holds of governance over several calls.
use crate::dao_governance::call_data;
use crate::dao_governance::call_data::{Action, ActionView};
use crate::dao_governance::model;
use crate::dao_governance::model::{
    Call, GovernanceState, MultiSigConfigView, MultiSigTxView, ProposalView,
};
use crate::dao_governance::{
    Effect, MultiSigTxStatus, ProposalStatus, GOV_WALLET_ID, TIMELOCK, VOTING_PERIOD,
};
use crate::error;
use crate::error::Error;
use crate::sums;
use crate::types::{Address, Context, Symbol};
use vstd::prelude::*;

verus! {

/// A proposal may change where its votes and times stay.
proof fn lemma_proposal(s: GovernanceState, id: u64, p: ProposalView)
    requires
        s.proposals_sound(),
        s.proposals.contains_key(id),
        p == (ProposalView { status: p.status, ..s.proposals[id] }),
    ensures
        (GovernanceState { proposals: s.proposals.insert(id, p), ..s }).proposals_sound(),
{
    let t = GovernanceState { proposals: s.proposals.insert(id, p), ..s };
    assert(s.proposal_sound(id));
    assert forall|k: u64| #[trigger] t.proposals.contains_key(k) implies t.proposal_sound(k) by {
        assert(s.proposals.contains_key(k));
    }
}

/// A new proposal has no votes.
proof fn lemma_with_proposal(
    s: GovernanceState,
    env: Context,
    proposer: Address,
    title: Seq<u8>,
    description: Seq<u8>,
    call_data: Seq<u8>,
)
    requires
        s.proposals_sound(),
        s.with_proposal(env, proposer, title, description, call_data) is Ok,
    ensures
        s.with_proposal(
            env,
            proposer,
            title,
            description,
            call_data,
        )->Ok_0.0.proposals_sound(),
{
    let (t, id) = s.with_proposal(env, proposer, title, description, call_data)->Ok_0;
    assert forall|k: u64| #[trigger] t.proposals.contains_key(k) implies t.proposal_sound(k) by {
        if k == id {
            sums::lemma_total_zero(s.voted, model::ballots_on(id));
        } else {
            assert(s.proposals.contains_key(k));
        }
    }
    assert forall|key: (u64, Address)| #[trigger] t.voted.contains_key(key) implies key.0
        < t.proposal_count by {
        assert(s.voted.contains_key(key));
    }
}

/// A vote is counted once.
proof fn lemma_vote(s: GovernanceState, voter: Address, proposal_id: u64, support: bool)
    requires
        s.proposals_sound(),
        s.vote(voter, proposal_id, support) is Ok,
    ensures
        s.vote(voter, proposal_id, support)->Ok_0.0.proposals_sound(),
{
    let t = s.vote(voter, proposal_id, support)->Ok_0.0;
    assert(s.proposal_sound(proposal_id));
    assert forall|k: u64| #[trigger] t.proposals.contains_key(k) implies t.proposal_sound(k) by {
        assert(s.proposals.contains_key(k));
        sums::lemma_total_insert(s.voted, model::ballots_on(k), (proposal_id, voter), true);
    }
    assert forall|key: (u64, Address)| #[trigger] t.voted.contains_key(key) implies key.0
        < t.proposal_count by {
        if key != (proposal_id, voter) {
            assert(s.voted.contains_key(key));
        }
    }
}

/// A new wallet is sound.
proof fn lemma_create_multisig(s: GovernanceState, call: Call)
    requires
        s.wallets_sound(),
        call is CreateMultisig,
        s.create_multisig(
            call->CreateMultisig_dao,
            call->threshold,
            call->signers,
            call->scope,
        ) is Ok,
    ensures
        s.create_multisig(
            call->CreateMultisig_dao,
            call->threshold,
            call->signers,
            call->scope,
        )->Ok_0.0.wallets_sound(),
{
    let t = s.create_multisig(
        call->CreateMultisig_dao,
        call->threshold,
        call->signers,
        call->scope,
    )->Ok_0.0;
    assert forall|k: u32| #[trigger] t.wallets.contains_key(k) implies t.wallet_sound(k) by {
        if k != s.wallet_count {
            assert(s.wallets.contains_key(k));
            assert(s.wallet_sound(k));
            assert forall|i: u32| i < t.wallets[k].signers.len() implies (
            #[trigger] t.signer_index.contains_key((k, i))) && t.signer_index[(k, i)]
                == t.wallets[k].signers[i as int] by {
                assert(s.signer_index.contains_key((k, i)));
            }
        }
    }
    assert forall|w: u32, i: u32| #[trigger]
        t.signer_index.contains_key((w, i)) implies t.wallets.contains_key(w) && i
        < t.wallets[w].signers.len() by {
        if w != s.wallet_count {
            assert(s.signer_index.contains_key((w, i)));
        } else if s.signer_index.contains_key((w, i)) {
            assert(s.wallets.contains_key(w));
            assert(s.wallet_sound(w));
        }
    }
}

/// A wallet stays sound when a signer joins.
proof fn lemma_with_signer(s: GovernanceState, wallet_id: u32, signer: Address)
    requires
        s.wallets_sound(),
        s.wallets.contains_key(wallet_id),
        s.wallets[wallet_id].signers.len() < 15,
    ensures
        s.with_signer(wallet_id, signer).wallets_sound(),
{
    let t = s.with_signer(wallet_id, signer);
    assert(s.wallet_sound(wallet_id));
    assert forall|k: u32| #[trigger] t.wallets.contains_key(k) implies t.wallet_sound(k) by {
        assert(s.wallets.contains_key(k));
        assert(s.wallet_sound(k));
        assert forall|i: u32| i < t.wallets[k].signers.len() implies (
        #[trigger] t.signer_index.contains_key((k, i))) && t.signer_index[(k, i)]
            == t.wallets[k].signers[i as int] by {
            if i < s.wallets[k].signers.len() {
                assert(s.signer_index.contains_key((k, i)));
            }
        }
    }
    assert forall|w: u32, i: u32| #[trigger]
        t.signer_index.contains_key((w, i)) implies t.wallets.contains_key(w) && i
        < t.wallets[w].signers.len() by {
        if !(w == wallet_id && i == s.wallets[wallet_id].signers.len()) {
            assert(s.signer_index.contains_key((w, i)));
        }
    }
}

/// Where a signer first is.
proof fn lemma_first(signers: Seq<Address>, signer: Address) -> (place: int)
    requires
        signers.contains(signer),
    ensures
        model::is_first(signers, signer, place),
    decreases signers.len(),
{
    if signers.drop_last().contains(signer) {
        let place = lemma_first(signers.drop_last(), signer);
        assert forall|i: int| 0 <= i < place implies signers[i] != signer by {
            assert(signers.drop_last()[i] != signer);
        }
        place
    } else {
        let place = signers.len() - 1;
        let found = choose|i: int| 0 <= i < signers.len() && signers[i] == signer;
        if found < place {
            assert(signers.drop_last()[found] == signer);
        }
        assert forall|i: int| 0 <= i < place implies signers[i] != signer by {
            if signers[i] == signer {
                assert(signers.drop_last()[i] == signer);
            }
        }
        place
    }
}

/// A wallet stays sound when a signer leaves.
proof fn lemma_without_signer(s: GovernanceState, wallet_id: u32, signer: Address)
    requires
        s.wallets_sound(),
        s.sign_off(wallet_id, signer) is Ok,
    ensures
        s.without_signer(wallet_id, signer).wallets_sound(),
{
    let t = s.without_signer(wallet_id, signer);
    let cfg = s.wallets[wallet_id];
    assert(s.wallet_sound(wallet_id));
    let place = lemma_first(cfg.signers, signer);
    model::lemma_without(cfg.signers, signer, place);
    assert(t.wallets[wallet_id].signers.len() == cfg.signers.len() - 1);
    assert forall|k: u32| #[trigger] t.wallets.contains_key(k) implies t.wallet_sound(k) by {
        assert(s.wallets.contains_key(k));
        assert(s.wallet_sound(k));
        assert forall|i: u32| i < t.wallets[k].signers.len() implies (
        #[trigger] t.signer_index.contains_key((k, i))) && t.signer_index[(k, i)]
            == t.wallets[k].signers[i as int] by {
            assert(s.signer_index.contains_key((k, i)));
        }
    }
    assert forall|w: u32, i: u32| #[trigger]
        t.signer_index.contains_key((w, i)) implies t.wallets.contains_key(w) && i
        < t.wallets[w].signers.len() by {
        if s.signer_index.contains_key((w, i)) {
            assert(s.wallets.contains_key(w));
        }
    }
}

/// A transaction may change where its votes stay.
proof fn lemma_tx(s: GovernanceState, id: u64, status: MultiSigTxStatus)
    requires
        s.txs_sound(),
        s.txs.contains_key(id),
    ensures
        s.with_tx_status(id, status).txs_sound(),
{
    let t = s.with_tx_status(id, status);
    assert(s.tx_sound(id));
    assert forall|k: u64| #[trigger] t.txs.contains_key(k) implies t.tx_sound(k) by {
        assert(s.txs.contains_key(k));
    }
}

/// A new transaction has no votes.
proof fn lemma_with_tx(
    s: GovernanceState,
    env: Context,
    wallet_id: u32,
    proposal_id: u64,
    target: Address,
    function_name: Symbol,
    call_data: Seq<u8>,
)
    requires
        s.txs_sound(),
        s.with_tx(env, wallet_id, proposal_id, target, function_name, call_data) is Ok,
    ensures
        s.with_tx(
            env,
            wallet_id,
            proposal_id,
            target,
            function_name,
            call_data,
        )->Ok_0.0.txs_sound(),
{
    let (t, id) = s.with_tx(
        env,
        wallet_id,
        proposal_id,
        target,
        function_name,
        call_data,
    )->Ok_0;
    assert forall|k: u64| #[trigger] t.txs.contains_key(k) implies t.tx_sound(k) by {
        if k == id {
            sums::lemma_total_zero(s.approvals, model::ballots_on(id));
        } else {
            assert(s.txs.contains_key(k));
            assert(s.tx_sound(k));
        }
    }
    assert forall|key: (u64, Address)| #[trigger] t.approvals.contains_key(key) implies key.0
        < t.tx_count by {
        assert(s.approvals.contains_key(key));
    }
}

/// An approval or a rejection is counted once.
proof fn lemma_approve(s: GovernanceState, signer: Address, tx_id: u64, approve: bool)
    requires
        s.txs_sound(),
        s.approve_multisig_tx(signer, tx_id, approve) is Ok,
    ensures
        s.approve_multisig_tx(signer, tx_id, approve)->Ok_0.0.txs_sound(),
{
    let t = s.approve_multisig_tx(signer, tx_id, approve)->Ok_0.0;
    assert(s.tx_sound(tx_id));
    assert forall|k: u64| #[trigger] t.txs.contains_key(k) implies t.tx_sound(k) by {
        assert(s.txs.contains_key(k));
        assert(s.tx_sound(k));
        sums::lemma_total_insert(s.approvals, model::ballots_on(k), (tx_id, signer), approve);
    }
    assert forall|key: (u64, Address)| #[trigger] t.approvals.contains_key(key) implies key.0
        < t.tx_count by {
        if key != (tx_id, signer) {
            assert(s.approvals.contains_key(key));
        }
    }
}

/// Carrying out call data touches no proposal and no transaction, and keeps
/// the wallets sound.
proof fn lemma_apply(s: GovernanceState, env: Context, data: Seq<u8>, caller: Address)
    requires
        s.sound(),
    ensures
        s.apply_call_data(env, data, caller) matches Ok((t, _)) ==> {
            &&& t.sound()
            &&& t.proposals == s.proposals
            &&& t.voted == s.voted
            &&& t.proposal_count == s.proposal_count
            &&& t.txs == s.txs
            &&& t.approvals == s.approvals
        },
{
    if data.len() >= 4 && s.missing(call_data::kind(data)) is None && call_data::decode(
        data,
    ) is Ok {
        let action = call_data::decode(data)->Ok_0;
        lemma_perform(s, env, caller, action);
    }
}

proof fn lemma_perform(s: GovernanceState, env: Context, caller: Address, action: ActionView)
    requires
        s.sound(),
    ensures
        s.perform(env, caller, action) matches Ok((t, _)) ==> {
            &&& t.sound()
            &&& t.proposals == s.proposals
            &&& t.voted == s.voted
            &&& t.proposal_count == s.proposal_count
            &&& t.txs == s.txs
            &&& t.approvals == s.approvals
        },
{
    if s.perform(env, caller, action) is Ok {
        let t = s.perform(env, caller, action)->Ok_0.0;
        match action {
            ActionView::RegisterPartner { .. } => {},
            ActionView::Other(other) => {
                match other {
                    Action::AddSigner { wallet_id, signer } => {
                        lemma_with_signer(s, wallet_id, signer);
                    },
                    Action::RemoveSigner { wallet_id, signer } => {
                        lemma_without_signer(s, wallet_id, signer);
                    },
                    _ => {
                        assert(t.wallets == s.wallets && t.signer_index == s.signer_index);
                        assert(t.wallet_count == s.wallet_count);
                        lemma_same_wallets(s, t);
                    },
                }
                lemma_same_proposals(s, t);
                lemma_same_txs(s, t);
            },
        }
    }
}

proof fn lemma_same_proposals(s: GovernanceState, t: GovernanceState)
    requires
        s.proposals_sound(),
        t.proposals == s.proposals,
        t.voted == s.voted,
        t.proposal_count == s.proposal_count,
    ensures
        t.proposals_sound(),
{
    assert forall|k: u64| #[trigger] t.proposals.contains_key(k) implies t.proposal_sound(k) by {
        assert(s.proposals.contains_key(k));
        assert(s.proposal_sound(k));
    }
}

proof fn lemma_same_wallets(s: GovernanceState, t: GovernanceState)
    requires
        s.wallets_sound(),
        t.wallets == s.wallets,
        t.signer_index == s.signer_index,
        t.wallet_count == s.wallet_count,
    ensures
        t.wallets_sound(),
{
    assert forall|k: u32| #[trigger] t.wallets.contains_key(k) implies t.wallet_sound(k) by {
        assert(s.wallets.contains_key(k));
        assert(s.wallet_sound(k));
    }
}

proof fn lemma_same_txs(s: GovernanceState, t: GovernanceState)
    requires
        s.txs_sound(),
        t.txs == s.txs,
        t.approvals == s.approvals,
        t.tx_count == s.tx_count,
        t.tx_proposal == s.tx_proposal,
    ensures
        t.txs_sound(),
{
    assert forall|k: u64| #[trigger] t.txs.contains_key(k) implies t.tx_sound(k) by {
        assert(s.txs.contains_key(k));
        assert(s.tx_sound(k));
    }
}

/// The contract starts sound.
pub proof fn law_starts_sound()
    ensures
        GovernanceState::blank().sound(),
{
}

/// Whatever call comes, and whether it is refused or not, the contract stays
/// sound: votes are counted once each, every wallet has signers enough to
/// reach its threshold and no more than it may, and the index mirrors them.
/// Setting the contract up again is left out: it starts to number proposals
/// from zero while the votes on earlier ones remain.
pub proof fn law_stays_sound(s: GovernanceState, env: Context, call: Call)
    requires
        s.sound(),
        call is Initialize ==> s.proposal_count == 0,
    ensures
        s.after(env, call).sound(),
{
    let t = s.after(env, call);
    match call {
        Call::Propose { proposer, title, description, call_data } => {
            if s.propose(env, proposer, title, description, call_data) is Ok {
                lemma_with_proposal(s, env, proposer, title, description, call_data);
                lemma_same_wallets(s, t);
                lemma_same_txs(s, t);
            }
        },
        Call::Vote { voter, proposal_id, support } => {
            if s.vote(voter, proposal_id, support) is Ok {
                lemma_vote(s, voter, proposal_id, support);
                lemma_same_wallets(s, t);
                lemma_same_txs(s, t);
            }
        },
        Call::Finalise { proposal_id } => {
            if s.finalise(proposal_id) is Ok {
                lemma_proposal(s, proposal_id, t.proposals[proposal_id]);
                lemma_same_wallets(s, t);
                lemma_same_txs(s, t);
            }
        },
        Call::Execute { executor, proposal_id } => {
            if s.execute(env, executor, proposal_id) is Ok {
                let data = s.proposals[proposal_id].call_data;
                lemma_apply(s, env, data, executor);
                let mid = s.apply_call_data(env, data, executor)->Ok_0.0;
                lemma_proposal(mid, proposal_id, t.proposals[proposal_id]);
                lemma_same_wallets(mid, t);
                lemma_same_txs(mid, t);
            }
        },
        Call::Cancel { proposer, proposal_id } => {
            if s.cancel(proposer, proposal_id) is Ok {
                lemma_proposal(s, proposal_id, t.proposals[proposal_id]);
                lemma_same_wallets(s, t);
                lemma_same_txs(s, t);
            }
        },
        Call::CreateMultisig { dao, threshold, signers, scope } => {
            if s.create_multisig(dao, threshold, signers, scope) is Ok {
                lemma_create_multisig(s, call);
                lemma_same_proposals(s, t);
                lemma_same_txs(s, t);
            }
        },
        Call::AddSignerToWallet { dao, wallet_id, new_signer } => {
            if s.add_signer_to_wallet(dao, wallet_id, new_signer) is Ok {
                lemma_with_signer(s, wallet_id, new_signer);
                lemma_same_proposals(s, t);
                lemma_same_txs(s, t);
            }
        },
        Call::RemoveSignerFromWallet { dao, wallet_id, old_signer } => {
            if s.remove_signer_from_wallet(dao, wallet_id, old_signer) is Ok {
                lemma_without_signer(s, wallet_id, old_signer);
                lemma_same_proposals(s, t);
                lemma_same_txs(s, t);
            }
        },
        Call::SubmitMultisigTx {
            submitter,
            wallet_id,
            proposal_id,
            target,
            function_name,
            call_data,
        } => {
            if s.with_tx(env, wallet_id, proposal_id, target, function_name, call_data) is Ok {
                lemma_with_tx(s, env, wallet_id, proposal_id, target, function_name, call_data);
                lemma_same_proposals(s, t);
                lemma_same_wallets(s, t);
            }
        },
        Call::ApproveMultisigTx { signer, tx_id, approve } => {
            if s.approve_multisig_tx(signer, tx_id, approve) is Ok {
                lemma_approve(s, signer, tx_id, approve);
                lemma_same_proposals(s, t);
                lemma_same_wallets(s, t);
            }
        },
        Call::ExecuteMultisigTx { executor, tx_id } => {
            if s.execute_multisig_tx(env, executor, tx_id) is Ok {
                let data = s.txs[tx_id].call_data;
                lemma_apply(s, env, data, executor);
                let mid = s.apply_call_data(env, data, executor)->Ok_0.0;
                lemma_tx(mid, tx_id, MultiSigTxStatus::Executed);
                lemma_same_proposals(mid, t);
                lemma_same_wallets(mid, t);
            }
        },
        Call::CancelMultisigTx { signer, tx_id } => {
            if s.cancel_multisig_tx(signer, tx_id) is Ok {
                lemma_tx(s, tx_id, MultiSigTxStatus::Cancelled);
                lemma_same_proposals(s, t);
                lemma_same_wallets(s, t);
            }
        },
        Call::ProposeAndQueueMultisig {
            proposer,
            title,
            description,
            call_data,
            wallet_id,
            multisig_target,
            multisig_fn_name,
        } => {
            if s.propose_and_queue_multisig(
                env,
                proposer,
                title,
                description,
                call_data,
                wallet_id,
                multisig_target,
                multisig_fn_name,
            ) is Ok {
                lemma_with_proposal(s, env, proposer, title, description, call_data);
                let (mid, id) = s.with_proposal(
                    env,
                    proposer,
                    title,
                    description,
                    call_data,
                )->Ok_0;
                lemma_same_wallets(s, mid);
                lemma_same_txs(s, mid);
                lemma_with_tx(
                    mid,
                    env,
                    wallet_id,
                    id,
                    multisig_target,
                    multisig_fn_name,
                    call_data,
                );
                lemma_same_proposals(mid, t);
                lemma_same_wallets(mid, t);
            }
        },
        _ => {
            lemma_same_proposals(s, t);
            lemma_same_wallets(s, t);
            lemma_same_txs(s, t);
        },
    }
}

/// Only signers of the governing wallet propose and vote, and each of them
/// authorises the call.
pub proof fn law_only_signers_take_part(
    s: GovernanceState,
    env: Context,
    who: Address,
    title: Seq<u8>,
    description: Seq<u8>,
    data: Seq<u8>,
    proposal_id: u64,
    support: bool,
)
    ensures
        s.propose(env, who, title, description, data) matches Ok((_, _, effects)) ==> {
            &&& s.is_governance_signer(who)
            &&& effects[0] == model::plain(Effect::RequireAuth(who))
        },
        s.vote(who, proposal_id, support) matches Ok((_, effects)) ==> {
            &&& s.is_governance_signer(who)
            &&& effects[0] == model::plain(Effect::RequireAuth(who))
        },
        !s.is_governance_signer(who) ==> error::refused(
            s.propose(env, who, title, description, data),
            Error::OnlyGovernanceSigners,
        ) && error::refused(s.vote(who, proposal_id, support), Error::OnlyGovernanceSigners),
{
}

/// Proposing and voting do not depend on the compliance registry.
pub proof fn law_kyc_free(
    s: GovernanceState,
    compliance: Option<Address>,
    env: Context,
    who: Address,
    title: Seq<u8>,
    description: Seq<u8>,
    data: Seq<u8>,
    proposal_id: u64,
    support: bool,
)
    ensures
        ({
            let t = GovernanceState { compliance, ..s };
            &&& t.propose(env, who, title, description, data) is Ok <==> s.propose(
                env,
                who,
                title,
                description,
                data,
            ) is Ok
            &&& t.vote(who, proposal_id, support) is Ok <==> s.vote(
                who,
                proposal_id,
                support,
            ) is Ok
        }),
{
}

/// Nobody votes twice on a proposal.
pub proof fn law_one_vote_each(
    s: GovernanceState,
    voter: Address,
    proposal_id: u64,
    support: bool,
    again: bool,
)
    ensures
        s.vote(voter, proposal_id, support) matches Ok((t, _)) ==> error::refused(
            t.vote(voter, proposal_id, again),
            Error::AlreadyVoted,
        ),
{
}

/// A proposal is carried out only where as many signers support it as the
/// threshold asks for, its timelock has expired and, where its action is in
/// the mask, a transaction that belongs to it was approved; and never again.
pub proof fn law_execution(
    s: GovernanceState,
    env: Context,
    executor: Address,
    proposal_id: u64,
    later: Context,
    other: Address,
)
    requires
        s.sound(),
    ensures
        s.execute(env, executor, proposal_id) matches Ok((t, effects)) ==> {
            let p = s.proposals[proposal_id];
            &&& p.yes_votes >= s.wallets[GOV_WALLET_ID].threshold
            &&& p.yes_votes >= 1
            &&& env.timestamp >= p.start_time + VOTING_PERIOD + TIMELOCK
            &&& s.needs_approval(p.call_data) ==> s.has_approval(proposal_id)
            &&& effects[0] == model::plain(Effect::RequireAuth(executor))
            &&& error::refused(
                t.execute(later, other, proposal_id),
                Error::ProposalNotExecutable,
            )
        },
{
    if s.execute(env, executor, proposal_id) is Ok {
        assert(s.proposal_sound(proposal_id));
        assert(s.wallet_sound(GOV_WALLET_ID));
        lemma_apply(s, env, s.proposals[proposal_id].call_data, executor);
    }
}

/// A proposal that was executed or cancelled never changes again. Setting the
/// contract up again is left out: the numbers of proposals start over.
pub proof fn law_closed_proposals_stay(s: GovernanceState, env: Context, call: Call, proposal_id: u64)
    requires
        s.sound(),
        !(call is Initialize),
        s.proposals.contains_key(proposal_id),
        s.proposals[proposal_id].status == ProposalStatus::Executed
            || s.proposals[proposal_id].status == ProposalStatus::Cancelled,
    ensures
        s.after(env, call).get_proposal(proposal_id) == s.get_proposal(proposal_id),
{
    assert(s.proposal_sound(proposal_id));
    match call {
        Call::Execute { executor, proposal_id: id } => {
            if s.execute(env, executor, id) is Ok {
                lemma_apply(s, env, s.proposals[id].call_data, executor);
            }
        },
        Call::ExecuteMultisigTx { executor, tx_id } => {
            if s.execute_multisig_tx(env, executor, tx_id) is Ok {
                lemma_apply(s, env, s.txs[tx_id].call_data, executor);
            }
        },
        Call::SetProtocolConfig { .. } => {},
        Call::SetCompliance { .. } => {},
        Call::SetOracle { .. } => {},
        Call::SetMultisigMask { .. } => {},
        Call::Propose { .. } => {},
        Call::Vote { .. } => {},
        Call::Finalise { .. } => {},
        Call::Cancel { .. } => {},
        Call::CreateMultisig { .. } => {},
        Call::AddSignerToWallet { .. } => {},
        Call::RemoveSignerFromWallet { .. } => {},
        Call::SubmitMultisigTx { .. } => {},
        Call::ApproveMultisigTx { .. } => {},
        Call::CancelMultisigTx { .. } => {},
        Call::ProposeAndQueueMultisig { .. } => {},
        Call::Initialize { .. } => {},
    }
}

/// Whoever joins a wallet can leave it again, and then the wallet is as
/// before.
pub proof fn law_leaving_undoes_joining(s: GovernanceState, wallet_id: u32, signer: Address)
    requires
        s.sound(),
    ensures
        s.sign_up(wallet_id, signer) matches Ok((t, _)) ==> (t.sign_off(wallet_id, signer) matches
            Ok((u, _)) && u == s),
{
    if s.sign_up(wallet_id, signer) is Ok {
        let t = s.sign_up(wallet_id, signer)->Ok_0.0;
        let cfg = s.wallets[wallet_id];
        let more = t.wallets[wallet_id].signers;
        assert(s.wallet_sound(wallet_id));
        assert(more.last() == signer);
        assert(model::is_first(more, signer, cfg.signers.len() as int)) by {
            assert forall|i: int| 0 <= i < cfg.signers.len() implies more[i] != signer by {
                assert(cfg.signers.contains(cfg.signers[i]));
            }
        }
        model::lemma_without(more, signer, cfg.signers.len() as int);
        assert(more.remove(cfg.signers.len() as int) =~= cfg.signers);
        let u = t.without_signer(wallet_id, signer);
        assert(u.wallets =~= s.wallets);
        assert forall|k: (u32, u32)| s.signer_index.contains_key(k) implies u.signer_index.contains_key(
            k,
        ) && u.signer_index[k] == s.signer_index[k] by {
            assert(s.signer_index.contains_key((k.0, k.1)));
        }
        assert forall|k: (u32, u32)| u.signer_index.contains_key(k) implies s.signer_index.contains_key(
            k,
        ) by {
            if k.0 == wallet_id && k.1 < cfg.signers.len() {
                assert(s.signer_index.contains_key((wallet_id, k.1)));
            }
        }
        assert(u.signer_index =~= s.signer_index);
    }
}

/// Nobody votes twice on a transaction of a wallet, and only its signers do.
pub proof fn law_one_approval_each(
    s: GovernanceState,
    signer: Address,
    tx_id: u64,
    approve: bool,
    again: bool,
)
    ensures
        s.approve_multisig_tx(signer, tx_id, approve) matches Ok((t, effects)) ==> {
            &&& s.is_signer_of(s.txs[tx_id].wallet_id, signer)
            &&& effects[0] == model::plain(Effect::RequireAuth(signer))
            &&& t.approve_multisig_tx(signer, tx_id, again) is Err
        },
{
}

/// A transaction is approved by as many signers as the threshold asks for,
/// and rejected once those who are left could not approve it any more.
pub proof fn law_approval_threshold(
    s: GovernanceState,
    signer: Address,
    tx_id: u64,
    approve: bool,
)
    ensures
        s.approve_multisig_tx(signer, tx_id, approve) matches Ok((t, _)) ==> {
            let tx = t.txs[tx_id];
            let cfg = s.wallets[s.txs[tx_id].wallet_id];
            &&& tx.status == MultiSigTxStatus::Approved <==> tx.approvals >= cfg.threshold
            &&& tx.status == MultiSigTxStatus::Rejected <==> tx.approvals < cfg.threshold
                && cfg.signers.len() - tx.rejections < cfg.threshold
        },
{
}

/// Only the multi-sig wallet carries out a transaction. One that was carried
/// out, rejected or cancelled is not carried out again.
pub proof fn law_no_second_execution(
    s: GovernanceState,
    env: Context,
    executor: Address,
    tx_id: u64,
    later: Context,
    other: Address,
)
    requires
        s.sound(),
    ensures
        s.execute_multisig_tx(env, executor, tx_id) matches Ok((t, effects)) ==> {
            &&& s.get_multisig_wallet() == Ok::<Address, Error>(executor)
            &&& effects[0] == model::plain(Effect::RequireAuth(executor))
            &&& error::refused(
                t.execute_multisig_tx(later, other, tx_id),
                Error::TxAlreadyFinalized,
            )
        },
        s.is_pending(tx_id) || (s.txs.contains_key(tx_id) && s.txs[tx_id].status
            == MultiSigTxStatus::Approved) || s.execute_multisig_tx(env, executor, tx_id) is Err,
{
    if s.execute_multisig_tx(env, executor, tx_id) is Ok {
        lemma_apply(s, env, s.txs[tx_id].call_data, executor);
    }
}

/// Every signer of a wallet is listed with what they said of a transaction.
pub proof fn law_approvals_list_signers(s: GovernanceState, tx_id: u64)
    requires
        s.sound(),
        s.txs.contains_key(tx_id),
        s.wallets.contains_key(s.txs[tx_id].wallet_id),
    ensures
        s.get_multisig_tx_approvals(tx_id) matches Ok(infos) && infos.len()
            == s.wallets[s.txs[tx_id].wallet_id].signers.len() && forall|i: int|
            0 <= i < infos.len() ==> (#[trigger] infos[i]).signer
                == s.wallets[s.txs[tx_id].wallet_id].signers[i],
{
    let w = s.txs[tx_id].wallet_id;
    assert(s.wallet_sound(w));
    assert forall|i: int| 0 <= i < s.wallets[w].signers.len() implies (
    #[trigger] s.signer_index.contains_key((w, i as u32))) && s.signer_index[(w, i as u32)]
        == s.wallets[w].signers[i] by {
        assert((i as u32) < s.wallets[w].signers.len());
    }
    let infos = s.get_multisig_tx_approvals(tx_id)->Ok_0;
    assert(s.get_multisig_tx_approvals(tx_id) is Ok);
    assert forall|i: int| 0 <= i < infos.len() implies (#[trigger] infos[i]).signer
        == s.wallets[w].signers[i] by {
        assert(s.signer_index.contains_key((w, i as u32)));
    }
}

/// The actions that ask for the approval of a wallet at first: new assets,
/// partners that are deactivated, the retired tiers, signers, providers,
/// verifiers, partner assets and upgrades.
pub proof fn law_default_mask(s: GovernanceState, action: u32)
    requires
        s.multisig_mask is None,
        action < 32,
    ensures
        s.requires_multisig(action) == Ok::<bool, Error>(
            action <= 2 || (6 <= action && action <= 12) || action == 15 || action == 16,
        ),
{
    assert(0x19fc7u32 & (1u32 << action) != 0 <==> (action <= 2 || (6 <= action && action <= 12)
        || action == 15 || action == 16)) by (bit_vector)
        requires
            action < 32,
    ;
}

/// The settings change only on the word of the DAO that is stored. Setting the
/// contract up again is left out: anyone may do it.
pub proof fn law_settings_need_the_dao(s: GovernanceState, env: Context, call: Call)
    requires
        !(call is Initialize),
    ensures
        ({
            let t = s.after(env, call);
            &&& t.dao == s.dao
            &&& t.cdp == s.cdp
            &&& (t.multisig_wallet != s.multisig_wallet || t.lp_contract != s.lp_contract
                || t.partner_registry != s.partner_registry) ==> (call matches
                Call::SetProtocolConfig { dao, .. } && Some(dao) == s.dao)
            &&& t.compliance != s.compliance ==> (call matches Call::SetCompliance { dao, .. }
                && Some(dao) == s.dao)
            &&& t.oracle != s.oracle ==> (call matches Call::SetOracle { dao, .. } && Some(dao)
                == s.dao)
            &&& t.multisig_mask != s.multisig_mask ==> (call matches Call::SetMultisigMask {
                dao,
                ..
            } && Some(dao) == s.dao)
        }),
{
    match call {
        Call::Execute { executor, proposal_id } => {
            lemma_keeps_settings(s, env, s.proposals[proposal_id].call_data, executor);
        },
        Call::ExecuteMultisigTx { executor, tx_id } => {
            lemma_keeps_settings(s, env, s.txs[tx_id].call_data, executor);
        },
        Call::SetProtocolConfig { .. } => {},
        Call::SetCompliance { .. } => {},
        Call::SetOracle { .. } => {},
        Call::SetMultisigMask { .. } => {},
        Call::Propose { .. } => {},
        Call::Vote { .. } => {},
        Call::Finalise { .. } => {},
        Call::Cancel { .. } => {},
        Call::CreateMultisig { .. } => {},
        Call::AddSignerToWallet { .. } => {},
        Call::RemoveSignerFromWallet { .. } => {},
        Call::SubmitMultisigTx { .. } => {},
        Call::ApproveMultisigTx { .. } => {},
        Call::CancelMultisigTx { .. } => {},
        Call::ProposeAndQueueMultisig { .. } => {},
        Call::Initialize { .. } => {},
    }
}

/// Carrying out call data keeps the settings.
proof fn lemma_keeps_settings(s: GovernanceState, env: Context, data: Seq<u8>, caller: Address)
    ensures
        s.apply_call_data(env, data, caller) matches Ok((t, _)) ==> {
            &&& t.dao == s.dao
            &&& t.cdp == s.cdp
            &&& t.multisig_wallet == s.multisig_wallet
            &&& t.lp_contract == s.lp_contract
            &&& t.partner_registry == s.partner_registry
            &&& t.compliance == s.compliance
            &&& t.oracle == s.oracle
            &&& t.multisig_mask == s.multisig_mask
        },
{
    if s.apply_call_data(env, data, caller) is Ok && data.len() >= 4 {
        let action = call_data::decode(data)->Ok_0;
        match action {
            ActionView::RegisterPartner { .. } => {},
            ActionView::Other(other) => match other {
                Action::AddSigner { .. } => {},
                Action::RemoveSigner { .. } => {},
                Action::AdjustRatio { .. } => {},
                Action::SetParam { .. } => {},
                _ => {},
            },
        }
    }
}

/// A proposal and the transaction that was queued with it ask for the same.
pub proof fn law_queued_with_proposal(
    s: GovernanceState,
    env: Context,
    proposer: Address,
    title: Seq<u8>,
    description: Seq<u8>,
    data: Seq<u8>,
    wallet_id: u32,
    target: Address,
    function_name: Symbol,
)
    ensures
        s.propose_and_queue_multisig(
            env,
            proposer,
            title,
            description,
            data,
            wallet_id,
            target,
            function_name,
        ) matches Ok((t, ids, _)) ==> {
            &&& ids == seq![s.proposal_count, s.tx_count]
            &&& t.proposals[ids[0]].call_data == data
            &&& t.txs[ids[1]].call_data == data
            &&& t.txs[ids[1]].proposal_id == ids[0]
            &&& t.tx_proposal[ids[1]] == ids[0]
            &&& model::list(t.proposal_txs, ids[0]).contains(ids[1])
            &&& t.proposal_has_pending_multisig(ids[0])
        },
{
    let step = s.propose_and_queue_multisig(
        env,
        proposer,
        title,
        description,
        data,
        wallet_id,
        target,
        function_name,
    );
    if step is Ok {
        let t = step->Ok_0.0;
        let ids = step->Ok_0.1;
        let before = model::list(s.proposal_txs, ids[0]);
        let now = model::list(t.proposal_txs, ids[0]);
        assert(now == before.push(ids[1]));
        assert(now[before.len() as int] == ids[1]);
        assert(t.is_pending(now[before.len() as int]));
    }
}

} // verus!
