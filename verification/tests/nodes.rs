use delegation_core::errors::Error;
use delegation_core::node_config::{bytes_copy, bytes_eq, NodeConfig, NodeState, NodeStatus};

fn key(n: u8) -> Vec<u8> {
    vec![n, n, n]
}

fn registry(n: u8) -> NodeConfig {
    let mut cfg = NodeConfig::new();
    for i in 1..=n {
        assert_eq!(cfg.add_node(key(i), vec![100 + i]), Some(i as usize));
    }
    cfg
}

fn status(n: u8, code: u32) -> NodeStatus {
    NodeStatus { bls_key: key(n), status: code }
}

#[test]
fn registry_resolves_keys_to_ids_from_one() {
    let cfg = registry(3);
    assert_eq!(cfg.num_nodes(), 3);
    assert_eq!(cfg.get_node_id(&key(1)), 1);
    assert_eq!(cfg.get_node_id(&key(3)), 3);
    assert_eq!(cfg.get_node_id(&key(4)), 0);
    assert_eq!(cfg.get_node_id(&vec![1, 1]), 0);
    assert_eq!(cfg.get_node_id_to_bls(2), key(2));
    assert_eq!(cfg.get_node_signature(2), vec![102]);
    assert_eq!(cfg.get_node_state(2), NodeState::Inactive);
}

#[test]
fn registry_rejects_a_key_twice() {
    let mut cfg = registry(2);
    assert_eq!(cfg.add_node(key(2), vec![]), None);
    assert_eq!(cfg.num_nodes(), 2);
}

#[test]
fn set_node_state_changes_one_node() {
    let mut cfg = registry(3);
    cfg.set_node_state(2, NodeState::UnBondPeriod { started: 5 });
    assert_eq!(cfg.get_node_state(1), NodeState::Inactive);
    assert_eq!(cfg.get_node_state(2), NodeState::UnBondPeriod { started: 5 });
    assert_eq!(cfg.get_node_state(3), NodeState::Inactive);
}

#[test]
fn pending_states_are_the_three_in_flight_states() {
    assert!(NodeState::PendingActivation.is_pending());
    assert!(NodeState::PendingDeactivation.is_pending());
    assert!(NodeState::PendingUnBond { unbond_started: 1 }.is_pending());
    assert!(!NodeState::Inactive.is_pending());
    assert!(!NodeState::Active.is_pending());
    assert!(!NodeState::ActivationFailed.is_pending());
    assert!(!NodeState::UnBondPeriod { started: 1 }.is_pending());
}

#[test]
fn split_parts_the_request_by_status() {
    let cfg = registry(4);
    let r = cfg.split_node_ids_by_err(&vec![3, 1, 2], &vec![status(1, 0), status(2, 7), status(3, 0)]);
    assert_eq!(r, Ok((vec![3, 1], vec![2])));
}

#[test]
fn split_union_is_the_request_without_overlap() {
    let cfg = registry(5);
    let ids = vec![5, 4, 3, 2, 1];
    let statuses = vec![status(1, 1), status(2, 0), status(3, 2), status(4, 0), status(5, 0)];
    let (ok, fail) = cfg.split_node_ids_by_err(&ids, &statuses).unwrap();
    assert_eq!(ok.len() + fail.len(), ids.len());
    for id in &ids {
        assert!(ok.contains(id) != fail.contains(id));
    }
    assert_eq!(ok, vec![5, 4, 2]);
    assert_eq!(fail, vec![3, 1]);
}

#[test]
fn split_fails_where_a_status_is_missing() {
    let cfg = registry(3);
    let r = cfg.split_node_ids_by_err(&vec![1, 2, 3], &vec![status(1, 0), status(3, 0)]);
    assert_eq!(r, Err(Error::MissingNodeStatus));
    let r = cfg.split_node_ids_by_err(&vec![1], &vec![status(9, 0)]);
    assert_eq!(r, Err(Error::MissingNodeStatus));
}

#[test]
fn split_of_an_empty_request_is_empty() {
    let cfg = registry(3);
    assert_eq!(cfg.split_node_ids_by_err(&vec![], &vec![status(1, 1)]), Ok((vec![], vec![])));
}

#[test]
fn a_reported_failure_wins_over_a_success_for_the_same_node() {
    let cfg = registry(2);
    let r = cfg.split_node_ids_by_err(&vec![1, 2], &vec![status(1, 0), status(1, 3), status(2, 0)]);
    assert_eq!(r, Ok((vec![2], vec![1])));
}

#[test]
fn bytes_helpers_compare_and_copy() {
    assert!(bytes_eq(&vec![1, 2, 3], &vec![1, 2, 3]));
    assert!(!bytes_eq(&vec![1, 2, 3], &vec![1, 2, 4]));
    assert!(!bytes_eq(&vec![1, 2, 3], &vec![1, 2]));
    assert_eq!(bytes_copy(&vec![9, 8]), vec![9, 8]);
}

#[test]
fn every_error_has_its_message() {
    assert_eq!(Error::UnknownNode.message(), "unknown node provided");
    assert_eq!(Error::NodeNotInactive.message(), "node must be inactive");
    assert_eq!(Error::NodeNotActive.message(), "node not active");
    assert_eq!(Error::NodeCannotBeUnbonded.message(), "node cannot be unbonded");
    assert_eq!(Error::NoKeysProvided.message(), "no BLS keys provided");
    assert_eq!(Error::BootstrapMode.message(), "cannot stake nodes in bootstrap mode");
    assert_eq!(Error::NotEnoughFunds.message(), "not enough funds in contract to stake nodes");
    assert_eq!(Error::NotEnoughActiveStake.message(), "cannot offer more than the user active stake");
    assert_eq!(Error::NotEnoughUnbondStake.message(), "not enough stake in unbond period");
    assert_eq!(
        Error::GlobalOperationInProgress.message(),
        "node operations are temporarily paused as checkpoint is reset"
    );
    assert_eq!(Error::NotAllowedToActivate.message(), "not allowed to activate");
    assert_eq!(Error::OnlyOwner.message(), "only owner allowed");
    assert_eq!(Error::NodeNotPending.message(), "node not pending");
    assert_eq!(Error::NotEnoughPendingStake.message(), "not enough stake pending");
    assert_eq!(Error::MissingNodeStatus.message(), "node status missing from response");
}
