use delegation_core::delegation::{AsyncCallResult, Caller, Delegation, RequestKind, Settings};
use delegation_core::errors::Error;
use delegation_core::fund_type::{Bucket, FundDescription, FundType};
use delegation_core::fund_transf_module::FundTransformationsModule;
use delegation_core::node_activation::ContractStakeModule;
use delegation_core::node_config::{NodeState, NodeStatus};
use delegation_core::phase::Phase;

const SPN: u128 = 1000;

fn key(n: u8) -> Vec<u8> {
    vec![n; 4]
}

fn sig(n: u8) -> Vec<u8> {
    vec![200, n]
}

fn settings() -> Settings {
    Settings {
        bootstrap_mode: false,
        global_op_in_progress: false,
        auto_activation_enabled: false,
        keep_failed_activation: false,
        stake_per_node: SPN,
        n_blocks_before_unbond: 60,
    }
}

fn pool(nodes: u8, waiting: &[(usize, u128)]) -> Delegation {
    let mut p = Delegation::new(settings());
    for i in 1..=nodes {
        assert_eq!(p.node_config.add_node(key(i), sig(i)), Some(i as usize));
    }
    for (owner, amount) in waiting {
        p.fund_module.deposit(*owner, FundDescription::Waiting, *amount);
    }
    p
}

fn statuses(list: &[(u8, u32)]) -> AsyncCallResult {
    AsyncCallResult::Answered(list.iter().map(|(n, s)| NodeStatus { bls_key: key(*n), status: *s }).collect())
}

fn failed() -> AsyncCallResult {
    AsyncCallResult::Failed { err_code: 4, err_msg: b"out of gas".to_vec() }
}

fn states(p: &Delegation) -> Vec<NodeState> {
    p.node_config.states.clone()
}

fn sum(p: &Delegation, kind: FundType) -> u128 {
    p.fund_module.query_sum(None, Some(kind))
}

fn active_pool(nodes: u8) -> Delegation {
    let mut p = pool(nodes, &[(1, SPN * nodes as u128)]);
    let keys: Vec<Vec<u8>> = (1..=nodes).map(key).collect();
    let req = p.stake_nodes(Caller::Owner, &keys).unwrap().unwrap();
    let all: Vec<(u8, u32)> = (1..=nodes).map(|n| (n, 0)).collect();
    p.auction_stake_callback(req.node_ids, statuses(&all)).unwrap();
    p
}

#[test]
fn stake_request_pairs_keys_and_signatures_with_ids() {
    let mut p = pool(3, &[(1, 5000)]);
    let req = p.stake_nodes(Caller::Owner, &vec![key(3), key(1)]).unwrap().unwrap();
    assert_eq!(req.kind, RequestKind::Stake);
    assert!(!req.recompute_rewards);
    assert_eq!(req.node_ids, vec![3, 1]);
    assert_eq!(req.bls_keys, vec![key(3), key(1)]);
    assert_eq!(req.signatures, vec![sig(3), sig(1)]);
    assert_eq!(req.amount, 2000);
    assert_eq!(
        states(&p),
        vec![NodeState::PendingActivation, NodeState::Inactive, NodeState::PendingActivation]
    );
    assert_eq!(sum(&p, FundType::Waiting), 3000);
    assert_eq!(sum(&p, FundType::PendingActivation), 2000);
}

#[test]
fn partial_stake_failure_is_settled_per_node() {
    let mut p = pool(3, &[(1, 2500), (2, 1500)]);
    let req = p.stake_nodes(Caller::Owner, &vec![key(1), key(2), key(3)]).unwrap().unwrap();
    assert_eq!(req.amount, 3000);
    let out = p.auction_stake_callback(req.node_ids, statuses(&[(1, 0), (2, 1), (3, 0)])).unwrap();
    assert_eq!(out.node_ids_ok, vec![1, 3]);
    assert_eq!(out.node_ids_fail, vec![2]);
    assert!(out.ok_event);
    assert!(out.fail_event);
    assert!(out.recompute_rewards);
    assert_eq!(out.batch_error, None);
    assert_eq!(states(&p), vec![NodeState::Active, NodeState::Inactive, NodeState::Active]);
    assert_eq!(sum(&p, FundType::Active), 2 * SPN);
    assert_eq!(sum(&p, FundType::Waiting), 4000 - 2 * SPN);
    assert_eq!(sum(&p, FundType::PendingActivation), 0);
    assert_eq!(p.fund_module.query_sum(None, None), 4000);
}

#[test]
fn partial_stake_failure_marks_the_node_where_failures_are_kept() {
    let mut p = pool(3, &[(1, 3000)]);
    p.settings.keep_failed_activation = true;
    let req = p.stake_nodes(Caller::Owner, &vec![key(1), key(2), key(3)]).unwrap().unwrap();
    p.auction_stake_callback(req.node_ids, statuses(&[(1, 0), (2, 1), (3, 0)])).unwrap();
    assert_eq!(states(&p), vec![NodeState::Active, NodeState::ActivationFailed, NodeState::Active]);
    assert_eq!(sum(&p, FundType::ActivationFailed), SPN);
    assert_eq!(sum(&p, FundType::Waiting), 0);
}

#[test]
fn stake_round_trip_all_succeed() {
    let mut p = pool(4, &[(1, 2000), (2, 7000)]);
    let req = p.stake_nodes(Caller::Owner, &vec![key(1), key(2), key(4)]).unwrap().unwrap();
    let out = p.auction_stake_callback(req.node_ids, statuses(&[(1, 0), (2, 0), (4, 0)])).unwrap();
    assert!(out.ok_event);
    assert!(!out.fail_event);
    assert_eq!(states(&p), vec![NodeState::Active, NodeState::Active, NodeState::Inactive, NodeState::Active]);
    assert_eq!(sum(&p, FundType::Active), 3 * SPN);
    assert_eq!(sum(&p, FundType::Waiting), 6000);
}

#[test]
fn stake_round_trip_total_failure_reverts() {
    let mut p = pool(3, &[(1, 2000), (2, 7000)]);
    let req = p.stake_nodes(Caller::Owner, &vec![key(1), key(2), key(3)]).unwrap().unwrap();
    let out = p.auction_stake_callback(req.node_ids, failed()).unwrap();
    assert_eq!(out.node_ids_ok, Vec::<usize>::new());
    assert_eq!(out.node_ids_fail, vec![1, 2, 3]);
    assert!(!out.ok_event);
    assert!(out.fail_event);
    assert!(!out.recompute_rewards);
    assert_eq!(out.batch_error, Some((4, b"out of gas".to_vec())));
    assert_eq!(states(&p), vec![NodeState::Inactive; 3]);
    assert_eq!(sum(&p, FundType::Waiting), 9000);
    assert_eq!(sum(&p, FundType::Active), 0);
    assert_eq!(sum(&p, FundType::PendingActivation), 0);
    assert_eq!(p.fund_module.query_sum(Some(1), Some(FundType::Waiting)), 2000);
    assert_eq!(p.fund_module.query_sum(Some(2), Some(FundType::Waiting)), 7000);
}

#[test]
fn a_pending_node_cannot_be_staked_again() {
    let mut p = pool(2, &[(1, 5000)]);
    p.stake_nodes(Caller::Owner, &vec![key(1)]).unwrap();
    let before = states(&p);
    assert_eq!(p.stake_nodes(Caller::Owner, &vec![key(2), key(1)]).unwrap_err(), Error::NodeNotInactive);
    assert_eq!(states(&p), before);
    assert_eq!(sum(&p, FundType::PendingActivation), SPN);
    assert_eq!(p.unstake_nodes(Caller::Owner, false, &vec![key(1)], 5).unwrap_err(), Error::NodeNotActive);
    assert_eq!(p.unbond_specific_nodes(Caller::Owner, &vec![key(1)], 500).unwrap_err(), Error::NodeCannotBeUnbonded);
    assert_eq!(p.unbond_all_possible_nodes(Caller::Owner, 500).unwrap().map(|r| r.node_ids), None);
}

#[test]
fn a_node_named_twice_is_rejected() {
    let mut p = pool(2, &[(1, 5000)]);
    assert_eq!(p.stake_nodes(Caller::Owner, &vec![key(1), key(1)]).unwrap_err(), Error::NodeNotInactive);
    assert_eq!(states(&p), vec![NodeState::Inactive; 2]);
    assert_eq!(sum(&p, FundType::Waiting), 5000);
}

#[test]
fn stake_is_rejected_before_anything_changes() {
    let mut p = pool(2, &[(1, 1500)]);
    assert_eq!(p.stake_nodes(Caller::Other, &vec![key(1)]).unwrap_err(), Error::OnlyOwner);
    assert_eq!(p.stake_nodes(Caller::Owner, &vec![key(1), key(9)]).unwrap_err(), Error::UnknownNode);
    assert_eq!(p.stake_nodes(Caller::Owner, &vec![key(1), key(2)]).unwrap_err(), Error::NotEnoughFunds);
    p.settings.global_op_in_progress = true;
    assert_eq!(p.stake_nodes(Caller::Owner, &vec![key(1)]).unwrap_err(), Error::GlobalOperationInProgress);
    p.settings.bootstrap_mode = true;
    assert_eq!(p.stake_nodes(Caller::Owner, &vec![key(1)]).unwrap_err(), Error::BootstrapMode);
    assert_eq!(states(&p), vec![NodeState::Inactive; 2]);
    assert_eq!(sum(&p, FundType::Waiting), 1500);
    assert_eq!(p.fund_module.buckets.len(), 1);
}

#[test]
fn stake_of_no_nodes_is_a_no_op() {
    let mut p = pool(2, &[(1, 1500)]);
    assert!(p.stake_nodes(Caller::Owner, &vec![]).unwrap().is_none());
    assert_eq!(sum(&p, FundType::Waiting), 1500);
}

#[test]
fn stake_amount_that_overflows_is_not_enough_funds() {
    let mut p = pool(2, &[(1, 1500)]);
    p.settings.stake_per_node = u128::MAX;
    assert_eq!(p.stake_nodes(Caller::Owner, &vec![key(1), key(2)]).unwrap_err(), Error::NotEnoughFunds);
    assert_eq!(states(&p), vec![NodeState::Inactive; 2]);
}

#[test]
fn stake_all_available_takes_what_the_waiting_stake_covers() {
    let mut p = pool(4, &[(1, 2999)]);
    p.node_config.set_node_state(1, NodeState::Active);
    assert_eq!(p.stake_all_available_endpoint(Caller::Other).unwrap_err(), Error::NotAllowedToActivate);
    p.settings.auto_activation_enabled = true;
    let req = p.stake_all_available_endpoint(Caller::Other).unwrap().unwrap();
    assert_eq!(req.node_ids, vec![2, 3]);
    assert_eq!(req.amount, 2000);
    assert_eq!(req.bls_keys, vec![key(2), key(3)]);
    assert_eq!(sum(&p, FundType::Waiting), 999);
    assert!(p.stake_all_available().unwrap().is_none());
}

#[test]
fn unstake_then_confirm_starts_the_unbond_period_at_the_callback_block() {
    let mut p = active_pool(3);
    let req = p.unstake_nodes_and_tokens_endpoint(Caller::Owner, &vec![key(2), key(3)], 40).unwrap().unwrap();
    assert_eq!(req.kind, RequestKind::UnStake);
    assert!(req.recompute_rewards);
    assert_eq!(req.node_ids, vec![2, 3]);
    assert!(req.signatures.is_empty());
    assert_eq!(req.amount, 0);
    assert_eq!(states(&p), vec![NodeState::Active, NodeState::PendingDeactivation, NodeState::PendingDeactivation]);
    assert_eq!(sum(&p, FundType::PendingDeactivation), 2 * SPN);
    let out = p.auction_unstake_callback(req.node_ids, statuses(&[(2, 0), (3, 5)]), 45).unwrap();
    assert!(out.recompute_rewards);
    assert_eq!(
        states(&p),
        vec![NodeState::Active, NodeState::UnBondPeriod { started: 45 }, NodeState::Active]
    );
    assert_eq!(sum(&p, FundType::Active), 2 * SPN);
    assert_eq!(sum(&p, FundType::UnStaked), SPN);
    assert!(p.fund_module.buckets.contains(&Bucket {
        owner: 1,
        desc: FundDescription::UnStaked { created: 40 },
        amount: SPN
    }));
}

#[test]
fn unstake_nodes_endpoint_asks_for_nodes_only() {
    let mut p = active_pool(1);
    let req = p.unstake_nodes_endpoint(Caller::Owner, &vec![key(1)], 40).unwrap().unwrap();
    assert_eq!(req.kind, RequestKind::UnStakeNodes);
    assert_eq!(p.unstake_nodes_endpoint(Caller::Other, &vec![key(1)], 40).unwrap_err(), Error::OnlyOwner);
}

#[test]
fn unstake_needs_active_stake_in_the_ledger() {
    let mut p = pool(1, &[]);
    p.node_config.set_node_state(1, NodeState::Active);
    assert_eq!(p.unstake_nodes(Caller::Owner, true, &vec![key(1)], 4).unwrap_err(), Error::NotEnoughActiveStake);
    assert_eq!(states(&p), vec![NodeState::Active]);
}

#[test]
fn unbond_all_selects_only_nodes_that_are_due() {
    let mut p = pool(3, &[]);
    p.node_config.set_node_state(1, NodeState::UnBondPeriod { started: 10 });
    p.node_config.set_node_state(2, NodeState::UnBondPeriod { started: 50 });
    p.node_config.set_node_state(3, NodeState::Active);
    p.fund_module.deposit(1, FundDescription::UnStaked { created: 10 }, SPN);
    p.fund_module.deposit(1, FundDescription::UnStaked { created: 50 }, SPN);
    let req = p.unbond_all_possible_nodes(Caller::Owner, 100).unwrap().unwrap();
    assert_eq!(req.kind, RequestKind::UnBondNodes);
    assert_eq!(req.node_ids, vec![1]);
    assert_eq!(req.bls_keys, vec![key(1)]);
    assert_eq!(
        states(&p),
        vec![
            NodeState::PendingUnBond { unbond_started: 10 },
            NodeState::UnBondPeriod { started: 50 },
            NodeState::Active
        ]
    );
    assert_eq!(sum(&p, FundType::PendingUnBond), SPN);
    assert_eq!(sum(&p, FundType::UnStaked), SPN);
    assert!(p.fund_module.buckets.contains(&Bucket {
        owner: 1,
        desc: FundDescription::PendingUnBond { created: 10 },
        amount: SPN
    }));
}

#[test]
fn unbond_all_scans_from_the_highest_id_down() {
    let mut p = pool(3, &[]);
    for id in 1..=3 {
        p.node_config.set_node_state(id, NodeState::UnBondPeriod { started: id as u64 });
    }
    p.fund_module.deposit(1, FundDescription::UnStaked { created: 1 }, 3 * SPN);
    let req = p.unbond_all_available(100).unwrap().unwrap();
    assert_eq!(req.node_ids, vec![3, 2, 1]);
    assert_eq!(req.bls_keys, vec![key(3), key(2), key(1)]);
}

#[test]
fn unbond_all_without_due_nodes_is_a_no_op() {
    let mut p = active_pool(2);
    assert!(p.unbond_all_possible_nodes(Caller::Owner, 1000).unwrap().is_none());
    assert_eq!(p.unbond_all_possible_nodes(Caller::Other, 1000).unwrap_err(), Error::OnlyOwner);
}

#[test]
fn unbond_needs_stake_that_is_due() {
    let mut p = pool(1, &[]);
    p.node_config.set_node_state(1, NodeState::UnBondPeriod { started: 10 });
    p.fund_module.deposit(1, FundDescription::UnStaked { created: 90 }, SPN);
    assert_eq!(p.unbond_nodes(&vec![key(1)], 100).unwrap_err(), Error::NotEnoughUnbondStake);
    assert_eq!(states(&p), vec![NodeState::UnBondPeriod { started: 10 }]);
    assert_eq!(sum(&p, FundType::UnStaked), SPN);
}

#[test]
fn unbond_specific_nodes_checks_keys_and_age() {
    let mut p = pool(2, &[]);
    p.node_config.set_node_state(1, NodeState::UnBondPeriod { started: 40 });
    p.fund_module.deposit(1, FundDescription::UnStaked { created: 40 }, SPN);
    assert_eq!(p.unbond_specific_nodes(Caller::Owner, &vec![], 100).unwrap_err(), Error::NoKeysProvided);
    assert_eq!(p.unbond_specific_nodes(Caller::Owner, &vec![key(7)], 101).unwrap_err(), Error::UnknownNode);
    assert_eq!(p.unbond_specific_nodes(Caller::Owner, &vec![key(1)], 100).unwrap_err(), Error::NodeCannotBeUnbonded);
    assert_eq!(p.unbond_specific_nodes(Caller::Owner, &vec![key(2)], 101).unwrap_err(), Error::NodeCannotBeUnbonded);
    let req = p.unbond_specific_nodes_endpoint(Caller::Owner, &vec![key(1)], 101).unwrap().unwrap();
    assert_eq!(req.node_ids, vec![1]);
}

#[test]
fn unbond_confirmed_frees_the_stake() {
    let mut p = pool(1, &[]);
    p.node_config.set_node_state(1, NodeState::UnBondPeriod { started: 10 });
    p.fund_module.deposit(5, FundDescription::UnStaked { created: 10 }, SPN);
    let req = p.unbond_nodes(&vec![key(1)], 100).unwrap().unwrap();
    let out = p.auction_unbond_callback(req.node_ids, statuses(&[(1, 0)])).unwrap();
    assert!(out.ok_event && !out.fail_event && !out.recompute_rewards);
    assert_eq!(states(&p), vec![NodeState::Inactive]);
    assert_eq!(p.fund_module.query_sum(Some(5), Some(FundType::WithdrawOnly)), SPN);
}

#[test]
fn unbond_rejected_restores_the_start_of_the_period() {
    let mut p = pool(1, &[]);
    p.node_config.set_node_state(1, NodeState::UnBondPeriod { started: 10 });
    p.fund_module.deposit(5, FundDescription::UnStaked { created: 8 }, SPN);
    let req = p.unbond_nodes(&vec![key(1)], 100).unwrap().unwrap();
    p.auction_unbond_callback(req.node_ids, failed()).unwrap();
    assert_eq!(states(&p), vec![NodeState::UnBondPeriod { started: 10 }]);
    assert_eq!(p.fund_module.buckets, vec![Bucket { owner: 5, desc: FundDescription::UnStaked { created: 8 }, amount: SPN }]);
}

#[test]
fn unbond_failure_for_a_node_that_is_not_pending_is_an_error() {
    let mut p = active_pool(2);
    let before = states(&p);
    assert_eq!(p.auction_unbond_callback_fail(&vec![1]).unwrap_err(), Error::NodeNotPending);
    assert_eq!(p.auction_unbond_callback(vec![1, 2], failed()).unwrap_err(), Error::NodeNotPending);
    assert_eq!(p.auction_unbond_callback_ok(&vec![7]).unwrap_err(), Error::UnknownNode);
    assert_eq!(states(&p), before);
}

#[test]
fn a_response_applied_twice_is_rejected() {
    let mut p = pool(2, &[(1, 2000)]);
    let req = p.stake_nodes(Caller::Owner, &vec![key(1), key(2)]).unwrap().unwrap();
    let ids = req.node_ids.clone();
    p.auction_stake_callback(req.node_ids, statuses(&[(1, 0), (2, 0)])).unwrap();
    assert_eq!(p.auction_stake_callback(ids, statuses(&[(1, 0), (2, 0)])).unwrap_err(), Error::NodeNotPending);
    assert_eq!(sum(&p, FundType::Active), 2000);
}

#[test]
fn a_response_without_a_requested_node_changes_nothing() {
    let mut p = pool(2, &[(1, 2000)]);
    let req = p.stake_nodes(Caller::Owner, &vec![key(1), key(2)]).unwrap().unwrap();
    assert_eq!(p.auction_stake_callback(req.node_ids, statuses(&[(1, 0)])).unwrap_err(), Error::MissingNodeStatus);
    assert_eq!(states(&p), vec![NodeState::PendingActivation; 2]);
    assert_eq!(sum(&p, FundType::PendingActivation), 2000);
}

#[test]
fn a_failing_second_half_undoes_the_first() {
    let mut p = pool(2, &[(1, 2000)]);
    let req = p.stake_nodes(Caller::Owner, &vec![key(1)]).unwrap().unwrap();
    assert_eq!(req.node_ids, vec![1]);
    let r = p.auction_stake_callback(vec![1, 2], statuses(&[(1, 0), (2, 1)]));
    assert_eq!(r.unwrap_err(), Error::NodeNotPending);
    assert_eq!(states(&p), vec![NodeState::PendingActivation, NodeState::Inactive]);
    assert_eq!(sum(&p, FundType::PendingActivation), 1000);
    assert_eq!(sum(&p, FundType::Active), 0);
}

#[test]
fn settling_needs_the_pending_stake() {
    let mut p = pool(1, &[]);
    p.node_config.set_node_state(1, NodeState::PendingActivation);
    assert_eq!(p.auction_stake_callback_ok(&vec![1]).unwrap_err(), Error::NotEnoughPendingStake);
    assert_eq!(p.auction_stake_callback_fail(&vec![1]).unwrap_err(), Error::NotEnoughPendingStake);
    assert_eq!(states(&p), vec![NodeState::PendingActivation]);
    assert_eq!(p.auction_stake_callback_ok(&vec![]), Ok(false));
}

#[test]
fn callback_halves_report_whether_there_was_a_node() {
    let mut p = active_pool(2);
    let req = p.unstake_nodes(Caller::Owner, false, &vec![key(1), key(2)], 3).unwrap().unwrap();
    assert_eq!(req.node_ids, vec![1, 2]);
    assert_eq!(p.auction_unstake_callback_ok(&vec![1], 9), Ok(true));
    assert_eq!(p.auction_unstake_callback_fail(&vec![2]), Ok(true));
    assert_eq!(p.auction_unstake_callback_fail(&vec![]), Ok(false));
    assert_eq!(states(&p), vec![NodeState::UnBondPeriod { started: 9 }, NodeState::Active]);
}

#[test]
fn failed_stake_is_claimed_back() {
    let mut p = pool(3, &[(4, 3000)]);
    p.settings.keep_failed_activation = true;
    let req = p.stake_nodes(Caller::Owner, &vec![key(1), key(2), key(3)]).unwrap().unwrap();
    p.auction_stake_callback(req.node_ids, statuses(&[(1, 1), (2, 0), (3, 1)])).unwrap();
    assert_eq!(p.claim_failed_stake(Caller::Other).unwrap_err(), Error::OnlyOwner);
    let claim = p.claim_failed_stake(Caller::Owner).unwrap().unwrap();
    assert_eq!(claim.kind, RequestKind::Claim);
    assert_eq!(claim.node_ids, vec![3, 1]);
    assert_eq!(p.auction_claim_callback(&claim.node_ids, false), Ok(false));
    assert_eq!(states(&p), vec![NodeState::ActivationFailed, NodeState::Active, NodeState::ActivationFailed]);
    assert_eq!(p.auction_claim_callback(&claim.node_ids, true), Ok(true));
    assert_eq!(states(&p), vec![NodeState::Inactive, NodeState::Active, NodeState::Inactive]);
    assert_eq!(p.fund_module.query_sum(Some(4), Some(FundType::WithdrawOnly)), 2000);
    assert!(p.claim_failed_stake(Caller::Owner).unwrap().is_none());
}

#[test]
fn claim_unused_funds_changes_nothing() {
    let mut p = active_pool(1);
    let req = p.claim_unused_funds(Caller::Owner).unwrap();
    assert_eq!(req.kind, RequestKind::ClaimUnused);
    assert!(req.node_ids.is_empty());
    assert_eq!(p.claim_unused_funds(Caller::Other).unwrap_err(), Error::OnlyOwner);
    p.settings.global_op_in_progress = true;
    assert_eq!(p.claim_unused_funds(Caller::Owner).unwrap_err(), Error::GlobalOperationInProgress);
}

#[test]
fn unjail_validates_and_forwards_the_fine() {
    let mut p = active_pool(2);
    p.node_config.add_node(key(3), sig(3));
    let req = p.unjail_nodes(Caller::Owner, &vec![key(2), key(1), key(2)], 77).unwrap();
    assert_eq!(req.kind, RequestKind::UnJail);
    assert_eq!(req.bls_keys, vec![key(2), key(1), key(2)]);
    assert_eq!(req.amount, 77);
    assert_eq!(p.unjail_nodes(Caller::Other, &vec![key(1)], 77).unwrap_err(), Error::OnlyOwner);
    assert_eq!(p.unjail_nodes(Caller::Owner, &vec![key(1), key(8)], 77).unwrap_err(), Error::UnknownNode);
    assert_eq!(p.unjail_nodes(Caller::Owner, &vec![key(1), key(3)], 77).unwrap_err(), Error::NodeNotActive);
    assert_eq!(states(&p), vec![NodeState::Active, NodeState::Active, NodeState::Inactive]);
}

#[test]
fn prepare_node_for_unbond_keeps_the_start() {
    let mut p = pool(2, &[]);
    p.node_config.set_node_state(1, NodeState::UnBondPeriod { started: 10 });
    assert!(!p.prepare_node_for_unbond_if_possible(1, 70));
    assert!(p.prepare_node_for_unbond_if_possible(1, 71));
    assert!(!p.prepare_node_for_unbond_if_possible(2, 71));
    assert_eq!(states(&p), vec![NodeState::PendingUnBond { unbond_started: 10 }, NodeState::Inactive]);
}

#[test]
fn perform_functions_begin_the_flows_for_ids() {
    let mut p = pool(2, &[(1, 2000)]);
    let req = p.perform_stake_nodes(vec![2]).unwrap().unwrap();
    assert_eq!(req.bls_keys, vec![key(2)]);
    assert_eq!(p.perform_stake_nodes(vec![0]).unwrap_err(), Error::UnknownNode);
    assert_eq!(p.perform_stake_nodes(vec![3]).unwrap_err(), Error::UnknownNode);
    assert_eq!(p.perform_unstake_nodes(true, vec![1], 5).unwrap_err(), Error::NodeNotActive);
    assert_eq!(p.perform_unbond(vec![1], 5).unwrap_err(), Error::NodeCannotBeUnbonded);
}

#[test]
fn phase_table_steps() {
    assert_eq!(Phase::StakeBegin.next(NodeState::Inactive), Some(NodeState::PendingActivation));
    assert_eq!(Phase::StakeBegin.next(NodeState::Active), None);
    assert_eq!(Phase::UnBondBegin { now: 100, delay: 60 }.next(NodeState::UnBondPeriod { started: 39 }),
        Some(NodeState::PendingUnBond { unbond_started: 39 }));
    assert_eq!(Phase::UnBondBegin { now: 100, delay: 60 }.next(NodeState::UnBondPeriod { started: 40 }), None);
    assert_eq!(Phase::UnBondFail.next(NodeState::PendingUnBond { unbond_started: 3 }),
        Some(NodeState::UnBondPeriod { started: 3 }));
    assert_eq!(Phase::ClaimOk.next(NodeState::ActivationFailed), Some(NodeState::Inactive));
    assert_eq!(Phase::UnStakeOk { now: 5 }.source(), FundType::PendingDeactivation);
    assert_eq!(Phase::StakeBegin.state_error(), Error::NodeNotInactive);
    assert_eq!(Phase::UnBondOk.funds_error(), Error::NotEnoughPendingStake);
    assert_eq!(Phase::UnStakeBegin { now: 1 }.funds_error(), Error::NotEnoughActiveStake);
    assert_eq!(Phase::StakeFail { keep_failed: true }.partial_failure_message(), "staking failed for some nodes");
    assert_eq!(Phase::UnStakeFail.partial_failure_message(), "unstaking failed for some nodes");
    assert_eq!(Phase::UnBondFail.partial_failure_message(), "unbonding failed for some nodes");
    assert_eq!(Phase::StakeOk.partial_failure_message(), "");
}

#[test]
fn a_checkpoint_reset_pauses_every_command() {
    let mut p = active_pool(2);
    p.settings.global_op_in_progress = true;
    p.settings.auto_activation_enabled = true;
    let paused = Error::GlobalOperationInProgress;
    assert_eq!(p.unstake_nodes(Caller::Owner, false, &vec![key(1)], 5).unwrap_err(), paused);
    assert_eq!(p.unbond_specific_nodes(Caller::Owner, &vec![key(1)], 5).unwrap_err(), paused);
    assert_eq!(p.unbond_all_possible_nodes(Caller::Owner, 5).unwrap_err(), paused);
    assert_eq!(p.unbond_nodes(&vec![key(1)], 5).unwrap_err(), paused);
    assert_eq!(p.unbond_all_available(5).unwrap_err(), paused);
    assert_eq!(p.stake_all_available_endpoint(Caller::Other).unwrap_err(), paused);
    assert_eq!(p.claim_failed_stake(Caller::Owner).unwrap_err(), paused);
    assert_eq!(p.unjail_nodes(Caller::Owner, &vec![key(1)], 1).unwrap_err(), paused);
    assert_eq!(p.unjail_nodes(Caller::Other, &vec![key(1)], 1).unwrap_err(), Error::OnlyOwner);
    assert_eq!(states(&p), vec![NodeState::Active; 2]);
    assert_eq!(sum(&p, FundType::Active), 2 * SPN);
}

#[test]
fn a_total_unstake_failure_reverts_nodes_and_stake() {
    let mut p = active_pool(2);
    let req = p.unstake_nodes(Caller::Owner, true, &vec![key(1), key(2)], 30).unwrap().unwrap();
    let out = p.auction_unstake_callback(req.node_ids, failed(), 31).unwrap();
    assert!(out.fail_event && !out.ok_event && out.recompute_rewards);
    assert_eq!(states(&p), vec![NodeState::Active; 2]);
    assert_eq!(sum(&p, FundType::Active), 2 * SPN);
    assert_eq!(sum(&p, FundType::PendingDeactivation), 0);
    assert_eq!(p.fund_module.query_sum(None, None), 2 * SPN);
}

#[test]
fn a_full_cycle_returns_the_node_to_inactive() {
    let mut p = active_pool(1);
    let req = p.unstake_nodes(Caller::Owner, true, &vec![key(1)], 30).unwrap().unwrap();
    p.auction_unstake_callback(req.node_ids, statuses(&[(1, 0)]), 33).unwrap();
    assert!(p.unbond_all_possible_nodes(Caller::Owner, 93).unwrap().is_none());
    let req = p.unbond_all_possible_nodes(Caller::Owner, 94).unwrap().unwrap();
    p.auction_unbond_callback(req.node_ids, statuses(&[(1, 0)])).unwrap();
    assert_eq!(states(&p), vec![NodeState::Inactive]);
    assert_eq!(sum(&p, FundType::WithdrawOnly), SPN);
    assert_eq!(p.fund_module.liquidate_free_stake(1, SPN), 0);
    assert_eq!(p.fund_module.query_sum(None, None), 0);
    p.fund_module.create_waiting(1, SPN);
    assert!(p.stake_nodes(Caller::Owner, &vec![key(1)]).unwrap().is_some());
}
