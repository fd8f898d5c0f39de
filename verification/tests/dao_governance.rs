use uruk_protocol::dao_governance::call_data;
use uruk_protocol::dao_governance::call_data::Action;
use uruk_protocol::dao_governance::{
    CancelledEvent, DAOGovernance, Effect, ExecutedEvent, MultiSigApprovalInfo,
    MultiSigApprovedEvent, MultiSigCreatedEvent, MultiSigExecutedEvent, MultiSigScope,
    MultiSigTxStatus, ProposalStatus, ProposedEvent, VotedEvent,
};
use uruk_protocol::error::Error;
use uruk_protocol::types::{Address, Context, Symbol, WasmHash};

const DAYS_TO_EXECUTE: u64 = 172_800 + 86_400;

const ACCOUNT: &str = "GA7QYNF7SOWQ3GLR2BGMZEHXAVIRZA4KVWLTJJFC7MGXUA74P7UJVSGZ";
const CONTRACT: &str = "CAAAAAAAAAAAAAAAAAAAAAAAAAAAAAAAAAAAAAAAAAAAAAAAAAAAD2KM";

fn addr(n: u128) -> Address {
    Address { contract: false, hi: 0, lo: n }
}

/// What [`ACCOUNT`] stands for.
fn account() -> Address {
    Address {
        contract: false,
        hi: 0x3f0c34bf93ad0d9971d04ccc90f70551,
        lo: 0x1c838aad9734a4a2fb0d7a03fc7fe89a,
    }
}

/// What [`CONTRACT`] stands for.
fn contract() -> Address {
    Address { contract: true, hi: 0, lo: 1 }
}

fn sym(text: &str) -> Symbol {
    Symbol::new(text.as_bytes()).unwrap()
}

fn here() -> Address {
    addr(100)
}

fn at(timestamp: u64) -> Context {
    Context { contract: here(), timestamp, sequence: 1 }
}

fn dao() -> Address {
    addr(1)
}

fn engine() -> Address {
    addr(2)
}

fn alice() -> Address {
    addr(3)
}

fn bob() -> Address {
    addr(4)
}

fn carol() -> Address {
    addr(5)
}

fn stranger() -> Address {
    addr(6)
}

/// A DAO whose wallet asks for two of three signers.
fn setup() -> DAOGovernance {
    let mut g = DAOGovernance::new();
    g.initialize(dao(), engine()).unwrap();
    g.create_multisig(dao(), 2, vec![alice(), bob(), carol()], MultiSigScope::AllExecutions)
        .unwrap();
    g
}

/// [`setup`] with every contract of the protocol known.
fn connected() -> DAOGovernance {
    let mut g = setup();
    g.set_protocol_config(dao(), addr(20), addr(21), addr(22), addr(23), addr(24)).unwrap();
    g.set_compliance(dao(), addr(25)).unwrap();
    g.set_oracle(dao(), addr(26)).unwrap();
    g
}

fn kind(n: u32) -> Vec<u8> {
    n.to_le_bytes().to_vec()
}

fn text(s: &str) -> Vec<u8> {
    let mut v = vec![s.len() as u8];
    v.extend_from_slice(s.as_bytes());
    v
}

fn wide(n: i128) -> Vec<u8> {
    n.to_le_bytes().to_vec()
}

fn join(parts: &[Vec<u8>]) -> Vec<u8> {
    let mut all: Vec<u8> = vec![];
    for p in parts.iter() {
        all.extend_from_slice(p);
    }
    all
}

/// Queues a transaction that belongs to a proposal and has it approved.
fn approved(g: &mut DAOGovernance, id: u64) {
    let (tx, _) =
        g.submit_multisig_tx(&at(0), alice(), 0, id, engine(), sym("apply"), vec![]).unwrap();
    g.approve_multisig_tx(alice(), tx, true).unwrap();
    g.approve_multisig_tx(bob(), tx, true).unwrap();
}

/// The effects of a call that a proposal carries out, without its frame.
fn carried_out(g: &mut DAOGovernance, data: Vec<u8>) -> Result<Vec<Effect>, Error> {
    let (id, _) = g.propose(&at(0), alice(), vec![], vec![], data).unwrap();
    g.vote(alice(), id, true).unwrap();
    g.vote(bob(), id, true).unwrap();
    approved(g, id);
    let effects = g.execute(&at(DAYS_TO_EXECUTE), stranger(), id)?;
    let n = effects.len();
    assert_eq!(effects[0], Effect::RequireAuth(stranger()));
    assert_eq!(effects[n - 1], Effect::Executed(ExecutedEvent { proposal_id: id }));
    Ok(effects[1..n - 1].to_vec())
}

#[test]
fn governance_starts_with_defaults() {
    let mut g = DAOGovernance::new();
    assert_eq!(g.get_param_cr(), Err(Error::NotInitialised));
    assert_eq!(g.get_multisig_wallet(), Err(Error::NotInitialised));
    assert_eq!(g.initialize(dao(), engine()), Ok(vec![Effect::RequireAuth(dao())]));
    assert_eq!(g.get_param_cr(), Ok(15_000));
    assert_eq!(g.get_param_borrow_fee(), Ok(50));
    assert_eq!(g.param_liq_penalty, Some(1_000));
    assert_eq!(g.get_proposal_count(), 0);
    // Until a wallet is set, the DAO stands for it.
    assert_eq!(g.get_multisig_wallet(), Ok(dao()));
}

#[test]
fn settings_are_the_daos() {
    let mut g = setup();
    assert_eq!(
        g.set_protocol_config(alice(), addr(1), addr(1), addr(1), addr(1), addr(1)),
        Err(Error::DaoOnly)
    );
    assert_eq!(g.set_compliance(alice(), addr(1)), Err(Error::DaoOnly));
    assert_eq!(g.set_oracle(alice(), addr(1)), Err(Error::DaoOnly));
    assert_eq!(g.set_multisig_mask(alice(), 0), Err(Error::DaoOnly));
    assert_eq!(
        g.add_oracle_provider(&at(0), dao(), alice()),
        Err(Error::OracleNotConfigured)
    );
    let mut g = connected();
    assert_eq!(g.get_multisig_wallet(), Ok(addr(20)));
    assert_eq!(g.get_earnings_contract(), Some(addr(23)));
    assert_eq!(g.get_stab_pool_contract(), Some(addr(24)));
    assert_eq!(g.get_compliance(), Some(addr(25)));
    assert_eq!(g.get_oracle(), Some(addr(26)));
    assert_eq!(
        g.add_oracle_provider(&at(0), dao(), alice()),
        Ok(vec![
            Effect::RequireAuth(dao()),
            Effect::AddProvider { oracle: addr(26), dao: here(), provider: alice() },
        ])
    );
    assert_eq!(
        g.set_oracle_min_providers(&at(0), dao(), 7),
        Ok(vec![
            Effect::RequireAuth(dao()),
            Effect::SetMinProviders { oracle: addr(26), dao: here(), min_providers: 7 },
        ])
    );
    let hash = WasmHash { hi: 1, lo: 2 };
    assert_eq!(g.upgrade(alice(), hash), Err(Error::DaoOnly));
    assert_eq!(
        g.upgrade(dao(), hash),
        Ok(vec![Effect::RequireAuth(dao()), Effect::UpdateWasm(hash)])
    );
}

#[test]
fn only_signers_propose_and_vote() {
    let mut g = setup();
    assert!(g.is_governance_signer(alice()));
    assert!(!g.is_governance_signer(stranger()));
    assert_eq!(
        g.propose(&at(5), stranger(), vec![], vec![], vec![]),
        Err(Error::OnlyGovernanceSigners)
    );
    assert_eq!(
        g.propose(&at(5), alice(), vec![1], vec![2], vec![3]),
        Ok((
            0,
            vec![
                Effect::RequireAuth(alice()),
                Effect::Proposed(ProposedEvent { proposer: alice(), proposal_id: 0 }),
            ]
        ))
    );
    let p = g.get_proposal(0).unwrap();
    assert_eq!(p.title, vec![1]);
    assert_eq!(p.description, vec![2]);
    assert_eq!(p.call_data, vec![3]);
    assert_eq!(p.end_time, 5 + 172_800);
    assert_eq!(p.execute_after, 5 + DAYS_TO_EXECUTE);
    assert_eq!(p.status, ProposalStatus::Active);
    assert_eq!(g.vote(stranger(), 0, true), Err(Error::OnlyGovernanceSigners));
    assert_eq!(
        g.vote(bob(), 0, false),
        Ok(vec![
            Effect::RequireAuth(bob()),
            Effect::Voted(VotedEvent {
                voter: bob(),
                proposal_id: 0,
                support: false,
                weight: 1,
            }),
        ])
    );
    assert!(g.has_voted(0, bob()));
    assert_eq!(g.vote(bob(), 0, true), Err(Error::AlreadyVoted));
    assert_eq!(g.vote(bob(), 1, true), Err(Error::ProposalNotFound));
    assert_eq!(g.get_proposal(0).unwrap().no_votes, 1);
    assert_eq!(g.get_proposal_count(), 1);
    assert_eq!(
        g.propose(&at(u64::MAX), alice(), vec![], vec![], vec![]),
        Err(Error::Arithmetic)
    );
}

#[test]
fn a_proposal_needs_votes_and_time() {
    let mut g = setup();
    g.propose(&at(0), alice(), vec![], vec![], vec![]).unwrap();
    g.vote(alice(), 0, true).unwrap();
    assert_eq!(g.finalise(0), Err(Error::ThresholdNotReached));
    assert_eq!(
        g.execute(&at(DAYS_TO_EXECUTE), stranger(), 0),
        Err(Error::ThresholdNotReached)
    );
    g.vote(bob(), 0, true).unwrap();
    assert_eq!(g.finalise(0), Ok(vec![]));
    assert_eq!(g.get_proposal(0).unwrap().status, ProposalStatus::Passed);
    assert_eq!(g.finalise(0), Err(Error::NotActive));
    assert_eq!(g.vote(carol(), 0, true), Err(Error::ProposalNotActive));
    assert_eq!(
        g.execute(&at(DAYS_TO_EXECUTE - 1), stranger(), 0),
        Err(Error::TimelockNotExpired)
    );
    assert!(g.execute(&at(DAYS_TO_EXECUTE), stranger(), 0).is_ok());
    assert_eq!(g.get_proposal(0).unwrap().status, ProposalStatus::Executed);
    assert_eq!(
        g.execute(&at(DAYS_TO_EXECUTE), stranger(), 0),
        Err(Error::ProposalNotExecutable)
    );
}

#[test]
fn the_proposer_cancels() {
    let mut g = setup();
    g.propose(&at(0), alice(), vec![], vec![], vec![]).unwrap();
    assert_eq!(g.cancel(bob(), 0), Err(Error::OnlyProposer));
    assert_eq!(
        g.cancel(alice(), 0),
        Ok(vec![
            Effect::RequireAuth(alice()),
            Effect::Cancelled(CancelledEvent { proposal_id: 0 }),
        ])
    );
    assert_eq!(g.cancel(alice(), 0), Err(Error::NotActive));
    assert_eq!(g.cancel(alice(), 5), Err(Error::ProposalNotFound));
}

#[test]
fn wallets_are_checked() {
    let mut g = setup();
    let all = MultiSigScope::AllExecutions;
    assert_eq!(
        g.create_multisig(alice(), 1, vec![alice()], all),
        Err(Error::DaoOnly)
    );
    assert_eq!(
        g.create_multisig(dao(), 0, vec![alice()], all),
        Err(Error::ThresholdNotPositive)
    );
    assert_eq!(
        g.create_multisig(dao(), 2, vec![alice()], all),
        Err(Error::ThresholdExceedsSigners)
    );
    let many: Vec<Address> = (0..16u128).map(|i| addr(200 + i)).collect();
    assert_eq!(
        g.create_multisig(dao(), 1, many.clone(), all),
        Err(Error::TooManySigners)
    );
    assert_eq!(
        g.create_multisig(dao(), 1, many[..15].to_vec(), all),
        Ok((
            1,
            vec![
                Effect::RequireAuth(dao()),
                Effect::MultiSigCreated(MultiSigCreatedEvent {
                    wallet_id: 1,
                    threshold: 1,
                    signer_count: 15,
                }),
            ]
        ))
    );
    assert_eq!(g.get_wallet_count(), 2);
    assert_eq!(
        g.add_signer_to_wallet(dao(), 1, addr(300)),
        Err(Error::TooManySigners)
    );
    assert_eq!(
        g.add_signer_to_wallet(dao(), 1, addr(200)),
        Err(Error::AlreadySigner)
    );
    assert_eq!(g.get_signers(9), Err(Error::WalletNotFound));
    assert!(!g.is_signer_of(9, alice()));
}

#[test]
fn signers_come_and_go() {
    let mut g = setup();
    assert_eq!(
        g.add_signer_to_wallet(dao(), 0, stranger()),
        Ok(vec![
            Effect::RequireAuth(dao()),
            Effect::MultiSigCreated(MultiSigCreatedEvent {
                wallet_id: 0,
                threshold: 2,
                signer_count: 4,
            }),
        ])
    );
    assert_eq!(g.get_signers(0), Ok(vec![alice(), bob(), carol(), stranger()]));
    g.remove_signer_from_wallet(dao(), 0, bob()).unwrap();
    assert_eq!(g.get_signers(0), Ok(vec![alice(), carol(), stranger()]));
    assert_eq!(g.signer_index.get(&(0, 1)), Some(&carol()));
    assert_eq!(g.signer_index.get(&(0, 3)), None);
    assert_eq!(
        g.remove_signer_from_wallet(dao(), 0, bob()),
        Err(Error::SignerNotFound)
    );
    g.remove_signer_from_wallet(dao(), 0, stranger()).unwrap();
    assert_eq!(
        g.remove_signer_from_wallet(dao(), 0, carol()),
        Err(Error::BelowThreshold)
    );
    assert!(!g.is_signer_of(0, bob()));
}

#[test]
fn the_mask_says_what_needs_approval() {
    let mut g = setup();
    let needed: Vec<u32> = (0..32u32).filter(|a| g.requires_multisig(*a).unwrap()).collect();
    assert_eq!(needed, vec![0, 1, 2, 6, 7, 8, 9, 10, 11, 12, 15, 16]);
    assert_eq!(g.requires_multisig(32), Err(Error::Arithmetic));
    g.set_multisig_mask(dao(), 0b1000).unwrap();
    assert_eq!(g.requires_multisig(3), Ok(true));
    assert_eq!(g.requires_multisig(0), Ok(false));
}

#[test]
fn a_transaction_gathers_approvals() {
    let mut g = setup();
    let (id, effects) = g
        .submit_multisig_tx(&at(9), stranger(), 0, 5, engine(), sym("apply"), vec![])
        .unwrap();
    assert_eq!(id, 0);
    assert_eq!(effects, vec![Effect::RequireAuth(stranger())]);
    assert_eq!(g.get_pending_multisig_txs(0), Ok(vec![0]));
    assert!(g.proposal_has_pending_multisig(5));
    assert_eq!(g.get_proposal_multisig_txs(5), vec![0]);
    assert_eq!(g.get_multisig_tx_proposal(0), 5);
    assert_eq!(
        g.approve_multisig_tx(stranger(), 0, true),
        Err(Error::NotASigner)
    );
    assert_eq!(
        g.approve_multisig_tx(alice(), 0, true),
        Ok(vec![
            Effect::RequireAuth(alice()),
            Effect::MultiSigApproved(MultiSigApprovedEvent { tx_id: 0, signer: alice() }),
        ])
    );
    assert_eq!(
        g.approve_multisig_tx(alice(), 0, true),
        Err(Error::AlreadyVotedOnTx)
    );
    assert_eq!(
        g.get_multisig_tx_approvals(0),
        Ok(vec![
            MultiSigApprovalInfo { signer: alice(), approved: true },
            MultiSigApprovalInfo { signer: bob(), approved: false },
            MultiSigApprovalInfo { signer: carol(), approved: false },
        ])
    );
    g.approve_multisig_tx(bob(), 0, true).unwrap();
    let tx = g.get_multisig_tx_status(0).unwrap();
    assert_eq!(tx.status, MultiSigTxStatus::Approved);
    assert_eq!(tx.approvals, 2);
    let summary = g.get_multisig_tx_summary(0).unwrap();
    assert_eq!(summary.threshold, 2);
    assert_eq!(summary.signer_count, 3);
    assert_eq!(summary.created_at, 9);
    assert_eq!(g.approve_multisig_tx(carol(), 0, true), Err(Error::TxNotPending));
    assert_eq!(
        g.execute_multisig_tx(&at(10), stranger(), 0),
        Err(Error::OnlyMultisigWallet)
    );
    // Until a wallet is set, the DAO stands for it.
    assert_eq!(
        g.execute_multisig_tx(&at(10), dao(), 0),
        Ok(vec![
            Effect::RequireAuth(dao()),
            Effect::MultiSigExecuted(MultiSigExecutedEvent { tx_id: 0, proposal_id: 5 }),
        ])
    );
    assert_eq!(
        g.execute_multisig_tx(&at(10), stranger(), 0),
        Err(Error::TxAlreadyFinalized)
    );
    assert_eq!(g.get_multisig_tx_status(7), Err(Error::TxNotFound));
}

#[test]
fn a_transaction_is_rejected_or_cancelled() {
    let mut g = setup();
    for _ in 0..2 {
        g.submit_multisig_tx(&at(9), alice(), 0, 5, engine(), sym("apply"), vec![]).unwrap();
    }
    g.approve_multisig_tx(alice(), 0, false).unwrap();
    assert_eq!(
        g.get_multisig_tx_status(0).unwrap().status,
        MultiSigTxStatus::Pending
    );
    g.approve_multisig_tx(bob(), 0, false).unwrap();
    assert_eq!(
        g.get_multisig_tx_status(0).unwrap().status,
        MultiSigTxStatus::Rejected
    );
    assert_eq!(g.cancel_multisig_tx(stranger(), 1), Err(Error::NotASigner));
    g.cancel_multisig_tx(carol(), 1).unwrap();
    assert_eq!(g.cancel_multisig_tx(carol(), 1), Err(Error::TxNotPending));
    assert!(!g.proposal_has_pending_multisig(5));
    assert_eq!(
        g.submit_multisig_tx(&at(9), alice(), 8, 5, engine(), sym("apply"), vec![]),
        Err(Error::WalletNotFound)
    );
}

#[test]
fn a_proposal_and_its_transaction_come_together() {
    let mut g = setup();
    g.propose(&at(0), alice(), vec![], vec![], vec![]).unwrap();
    assert_eq!(
        g.propose_and_queue_multisig(
            &at(9),
            stranger(),
            vec![],
            vec![],
            vec![],
            0,
            engine(),
            sym("apply")
        ),
        Err(Error::OnlyGovernanceSigners)
    );
    let (ids, effects) = g
        .propose_and_queue_multisig(
            &at(9),
            bob(),
            vec![],
            vec![],
            vec![7],
            0,
            engine(),
            sym("apply"),
        )
        .unwrap();
    assert_eq!(ids, vec![1, 0]);
    assert_eq!(
        effects,
        vec![
            Effect::RequireAuth(bob()),
            Effect::Proposed(ProposedEvent { proposer: bob(), proposal_id: 1 }),
            Effect::MultiSigCreated(MultiSigCreatedEvent {
                wallet_id: 0,
                threshold: 2,
                signer_count: 3,
            }),
        ]
    );
    assert_eq!(g.get_multisig_tx_status(0).unwrap().call_data, vec![7]);
    assert_eq!(g.get_proposal_multisig_txs(1), vec![0]);
}

#[test]
fn a_market_is_deployed_by_proposal() {
    let mut g = connected();
    let data = join(&[
        kind(call_data::ACTION_DEPLOY_ASSET),
        text("sBTC"),
        text(CONTRACT),
        text("BTCUSD"),
        text(ACCOUNT),
        text("XLMUSD"),
        wide(15_000),
        wide(12_000),
        wide(1_000),
        wide(-1),
        wide(i128::MAX),
    ]);
    assert_eq!(
        carried_out(&mut g, data.clone()),
        Ok(vec![
            Effect::RegisterAsset {
                engine: engine(),
                dao: stranger(),
                symbol: sym("sBTC"),
                token: contract(),
                oracle_sym: sym("BTCUSD"),
                coll_oracle: sym("XLMUSD"),
                min_cr: 15_000,
                liq_cr: 12_000,
                liq_penalty: 1_000,
                stab_fee_bps: -1,
                debt_ceiling: i128::MAX,
            },
            Effect::SetCollateralAllowed {
                engine: engine(),
                dao: stranger(),
                token: account(),
                allowed: true,
            },
        ])
    );
    let cut = data[..data.len() - 1].to_vec();
    assert_eq!(carried_out(&mut g, cut), Err(Error::CallDataTruncated));
}

#[test]
fn partners_are_managed_by_proposal() {
    let mut g = connected();
    let registry = addr(22);
    assert_eq!(
        carried_out(&mut g, join(&[kind(call_data::ACTION_DEACTIVATE), kind(9)])),
        Ok(vec![Effect::DeactivatePartner { registry, dao: here(), partner_id: 9 }])
    );
    assert_eq!(
        carried_out(
            &mut g,
            join(&[kind(call_data::ACTION_ADJUST_EARNINGS), kind(9), wide(4_000)])
        ),
        Ok(vec![Effect::SetPartnerShare {
            registry,
            dao: here(),
            partner_id: 9,
            new_share: 4_000,
        }])
    );
    assert_eq!(
        carried_out(
            &mut g,
            join(&[kind(call_data::ACTION_REGISTER_PARTNER), text(ACCOUNT), text("Überbank")])
        ),
        Ok(vec![Effect::RegisterPartner {
            registry,
            dao: here(),
            owner: account(),
            name: String::from("Überbank"),
        }])
    );
    assert_eq!(
        carried_out(
            &mut g,
            join(&[kind(call_data::ACTION_ACTIVATE_PARTNER_ASSET), text("PSGOLD")])
        ),
        Ok(vec![Effect::ActivatePartnerAsset {
            registry,
            dao: here(),
            symbol: sym("PSGOLD"),
        }])
    );
    assert_eq!(
        carried_out(&mut g, kind(call_data::ACTION_UPGRADE_TIER)),
        Err(Error::UpgradeTierRemoved)
    );
    let mut bare = setup();
    assert_eq!(
        carried_out(&mut bare, join(&[kind(call_data::ACTION_DEACTIVATE), kind(9)])),
        Err(Error::PartnerRegistryNotConfigured)
    );
}

#[test]
fn pools_oracles_and_verifiers_are_managed_by_proposal() {
    let mut g = connected();
    assert_eq!(
        carried_out(
            &mut g,
            join(&[
                kind(call_data::ACTION_CREATE_POOL),
                text("XLM_USDC"),
                text(ACCOUNT),
                text(CONTRACT),
                wide(30),
            ])
        ),
        Ok(vec![Effect::CreatePool {
            pool: addr(21),
            creator: stranger(),
            pool_id: sym("XLM_USDC"),
            token_a: account(),
            token_b: contract(),
            fee_tier: 30,
        }])
    );
    assert_eq!(
        carried_out(
            &mut g,
            join(&[kind(call_data::ACTION_ORACLE_ADD_PROVIDER), text(ACCOUNT)])
        ),
        Ok(vec![Effect::AddProvider { oracle: addr(26), dao: here(), provider: account() }])
    );
    assert_eq!(
        carried_out(
            &mut g,
            join(&[kind(call_data::ACTION_ORACLE_REMOVE_PROVIDER), text(ACCOUNT)])
        ),
        Ok(vec![Effect::RemoveProvider {
            oracle: addr(26),
            dao: here(),
            provider: account(),
        }])
    );
    assert_eq!(
        carried_out(
            &mut g,
            join(&[kind(call_data::ACTION_ORACLE_SET_MIN_PROVIDERS), kind(4)])
        ),
        Ok(vec![Effect::SetMinProviders {
            oracle: addr(26),
            dao: here(),
            min_providers: 4,
        }])
    );
    assert_eq!(
        carried_out(
            &mut g,
            join(&[kind(call_data::ACTION_KYC_ADD_VERIFIER), text(ACCOUNT)])
        ),
        Ok(vec![Effect::AddVerifier {
            compliance: addr(25),
            dao: stranger(),
            verifier: account(),
        }])
    );
    assert_eq!(
        carried_out(
            &mut g,
            join(&[kind(call_data::ACTION_KYC_REMOVE_VERIFIER), text(ACCOUNT)])
        ),
        Ok(vec![Effect::RemoveVerifier {
            compliance: addr(25),
            dao: stranger(),
            verifier: account(),
        }])
    );
    assert_eq!(
        carried_out(
            &mut g,
            join(&[
                kind(call_data::ACTION_SET_COLLATERAL_ALLOWED),
                text(CONTRACT),
                vec![0],
            ])
        ),
        Ok(vec![Effect::SetCollateralAllowed {
            engine: engine(),
            dao: stranger(),
            token: contract(),
            allowed: false,
        }])
    );
    let mut bare = setup();
    assert_eq!(
        carried_out(
            &mut bare,
            join(&[kind(call_data::ACTION_KYC_ADD_VERIFIER), text(ACCOUNT)])
        ),
        Err(Error::ComplianceNotConfigured)
    );
    assert_eq!(
        carried_out(
            &mut bare,
            join(&[
                kind(call_data::ACTION_CREATE_POOL),
                text("X"),
                text(ACCOUNT),
                text(CONTRACT),
                wide(30),
            ])
        ),
        Err(Error::LiquidityPoolNotConfigured)
    );
}

#[test]
fn code_is_replaced_by_proposal() {
    let mut g = connected();
    let hash: Vec<u8> = (0..32u8).collect();
    let expected = WasmHash {
        hi: 0x000102030405060708090a0b0c0d0e0f,
        lo: 0x101112131415161718191a1b1c1d1e1f,
    };
    let data = join(&[kind(call_data::ACTION_UPGRADE_CONTRACT), text(CONTRACT), hash]);
    assert_eq!(
        carried_out(&mut g, data.clone()),
        Ok(vec![Effect::UpgradeContract {
            target: contract(),
            dao: here(),
            new_wasm_hash: expected,
        }])
    );
    let cut = data[..data.len() - 1].to_vec();
    assert_eq!(carried_out(&mut g, cut), Err(Error::WasmHashTruncated));
    // A contract that is told to replace itself does so.
    let own = Context { contract: contract(), timestamp: DAYS_TO_EXECUTE, sequence: 1 };
    let (id, _) = g.propose(&at(0), alice(), vec![], vec![], data).unwrap();
    g.vote(alice(), id, true).unwrap();
    g.vote(bob(), id, true).unwrap();
    approved(&mut g, id);
    let effects = g.execute(&own, stranger(), id).unwrap();
    assert_eq!(effects[1], Effect::UpdateWasm(expected));
}

#[test]
fn signers_are_managed_by_proposal() {
    let mut g = setup();
    let add = join(&[kind(call_data::ACTION_ADD_SIGNER), kind(0), text(ACCOUNT)]);
    assert_eq!(carried_out(&mut g, add.clone()), Ok(vec![]));
    assert_eq!(g.get_signers(0), Ok(vec![alice(), bob(), carol(), account()]));
    assert_eq!(carried_out(&mut g, add), Err(Error::AlreadySigner));
    let remove = join(&[kind(call_data::ACTION_REMOVE_SIGNER), kind(0), text(ACCOUNT)]);
    assert_eq!(carried_out(&mut g, remove), Ok(vec![]));
    assert_eq!(g.get_signers(0), Ok(vec![alice(), bob(), carol()]));
    // What is too short to name a signer does nothing.
    let short = join(&[kind(call_data::ACTION_ADD_SIGNER), kind(0)]);
    assert_eq!(carried_out(&mut g, short), Ok(vec![]));
}

#[test]
fn parameters_are_set_by_proposal() {
    let mut g = setup();
    let data = join(&[kind(call_data::ACTION_ADJUST_RATIO), wide(14_000), wide(900)]);
    assert_eq!(carried_out(&mut g, data), Ok(vec![]));
    assert_eq!(g.get_param_cr(), Ok(14_000));
    assert_eq!(g.param_liq_penalty, Some(900));
    // The older encoding: one byte for the parameter, then its value.
    let mut old = vec![1u8];
    old.extend_from_slice(&wide(75));
    assert_eq!(call_data::read_kind(&old), 75 * 256 + 1);
    assert_eq!(carried_out(&mut g, old), Ok(vec![]));
    assert_eq!(g.get_param_borrow_fee(), Ok(75));
    // Less than a kind says nothing.
    assert_eq!(carried_out(&mut g, vec![1, 2, 3]), Ok(vec![]));
}

#[test]
fn a_transaction_carries_its_call_out() {
    let mut g = connected();
    let data = join(&[kind(call_data::ACTION_ORACLE_SET_MIN_PROVIDERS), kind(2)]);
    g.submit_multisig_tx(&at(9), alice(), 0, 5, engine(), sym("apply"), data).unwrap();
    assert_eq!(
        g.execute_multisig_tx(&at(10), stranger(), 0),
        Err(Error::OnlyMultisigWallet)
    );
    assert_eq!(
        g.execute_multisig_tx(&at(10), alice(), 0),
        Err(Error::OnlyMultisigWallet)
    );
    assert_eq!(g.get_multisig_tx_status(0).unwrap().status, MultiSigTxStatus::Pending);
    // The signatures may all be on the envelope: a pending one is carried out.
    let effects = g.execute_multisig_tx(&at(10), addr(20), 0).unwrap();
    assert_eq!(
        effects[1],
        Effect::SetMinProviders { oracle: addr(26), dao: here(), min_providers: 2 }
    );
}

#[test]
fn call_data_is_decoded() {
    let data = [0x78, 0x56, 0x34, 0x12, 0xff];
    assert_eq!(call_data::_decode_u32_at(&data, 0), Ok((0x12345678, 4)));
    assert_eq!(call_data::_decode_u32_at(&data, 2), Err(Error::CallDataTruncated));
    assert_eq!(call_data::_decode_i128_at(&wide(-5), 0), Ok((-5, 16)));
    assert_eq!(
        call_data::_decode_i128_at(&wide(-5), 1),
        Err(Error::CallDataTruncated)
    );
    assert_eq!(call_data::_decode_symbol_at(&text("abc"), 0), Ok((sym("abc"), 4)));
    assert_eq!(
        call_data::_decode_symbol_at(&text(&"a".repeat(33)), 0),
        Err(Error::SymbolPayloadTooLong)
    );
    assert_eq!(
        call_data::_decode_symbol_at(&text("a b"), 0),
        Err(Error::InvalidSymbol)
    );
    assert_eq!(
        call_data::_decode_symbol_at(&[1, 0xff], 0),
        Err(Error::InvalidUtf8Symbol)
    );
    assert_eq!(
        call_data::_decode_symbol_at(&[3, 0x61], 0),
        Err(Error::CallDataTruncated)
    );
    assert_eq!(
        call_data::_decode_string_at(&text("héllo"), 0),
        Ok((String::from("héllo"), 7))
    );
    assert_eq!(
        call_data::_decode_string_at(&text(&"a".repeat(81)), 0),
        Err(Error::StringPayloadTooLong)
    );
    assert_eq!(
        call_data::_decode_string_at(&[1, 0xff], 0),
        Err(Error::InvalidUtf8String)
    );
    assert_eq!(
        call_data::_decode_address_at(&text(ACCOUNT), 0),
        Ok((account(), 57))
    );
    assert_eq!(
        call_data::_decode_address_payload(&text(CONTRACT), 0),
        Ok(contract())
    );
    assert_eq!(
        call_data::_decode_address_at(&text("hello"), 0),
        Err(Error::InvalidAddress)
    );
    assert_eq!(
        call_data::_decode_bytesn32_at(&[7u8; 31], 0),
        Err(Error::WasmHashTruncated)
    );
    assert_eq!(call_data::read(&[]), Ok(Action::Nothing));
    assert_eq!(
        call_data::read(&join(&[kind(call_data::ACTION_DEACTIVATE), kind(3)])),
        Ok(Action::Deactivate { partner_id: 3 })
    );
}

#[test]
fn an_inactive_wallet_does_nothing() {
    let mut g = setup();
    let mut wallet = g.get_multisig_config(0).unwrap();
    wallet.active = false;
    g.wallets.insert(0, wallet);
    assert!(!g.is_governance_signer(alice()));
    assert_eq!(g.add_signer_to_wallet(dao(), 0, stranger()), Err(Error::WalletInactive));
    assert_eq!(g.remove_signer_from_wallet(dao(), 0, alice()), Err(Error::WalletInactive));
    assert_eq!(
        g.submit_multisig_tx(&at(0), alice(), 0, 0, engine(), sym("mint"), vec![]),
        Err(Error::WalletInactive)
    );
}

#[test]
fn a_vote_alone_does_not_carry_out_what_is_masked() {
    let mut g = setup();
    let data = join(&[kind(call_data::ACTION_ADD_SIGNER), kind(0), text(ACCOUNT)]);
    let (id, _) = g.propose(&at(0), alice(), vec![], vec![], data).unwrap();
    g.vote(alice(), id, true).unwrap();
    g.vote(bob(), id, true).unwrap();
    let late = at(DAYS_TO_EXECUTE);
    assert_eq!(g.execute(&late, stranger(), id), Err(Error::MultisigRequired));
    // A transaction that is queued but not approved does not help.
    g.submit_multisig_tx(&at(0), alice(), 0, id, engine(), sym("apply"), vec![]).unwrap();
    g.approve_multisig_tx(alice(), 0, true).unwrap();
    assert_eq!(g.execute(&late, stranger(), id), Err(Error::MultisigRequired));
    assert_eq!(g.get_signers(0), Ok(vec![alice(), bob(), carol()]));
    assert_eq!(g.get_proposal(id).unwrap().status, ProposalStatus::Active);
    g.approve_multisig_tx(bob(), 0, true).unwrap();
    assert!(g.execute(&late, stranger(), id).is_ok());
    assert_eq!(g.get_signers(0), Ok(vec![alice(), bob(), carol(), account()]));
    // Out of the mask, the vote is enough.
    let data = join(&[kind(call_data::ACTION_REMOVE_SIGNER), kind(0), text(ACCOUNT)]);
    let (id, _) = g.propose(&at(0), alice(), vec![], vec![], data).unwrap();
    g.vote(alice(), id, true).unwrap();
    g.vote(bob(), id, true).unwrap();
    assert_eq!(g.execute(&late, stranger(), id), Err(Error::MultisigRequired));
    g.set_multisig_mask(dao(), 0).unwrap();
    assert!(g.execute(&late, stranger(), id).is_ok());
}
