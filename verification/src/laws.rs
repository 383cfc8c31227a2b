use vstd::prelude::*;
use crate::delegation::{
    advanced, due_desc, first_asc, funded, funds_ok, lemma_due_desc, lemma_first_asc, target_ok, targets_ok,
};
use crate::fund_module::{
    conserves, lemma_converted_accounts, lemma_converted_conserves, lemma_eligible_sum_all, lemma_scan_all,
    lemma_sum_le_total, sum,
};
use crate::fund_type::{Bucket, FundType};
use crate::node_config::NodeState;
use crate::phase::{lemma_pending_not_selectable, Phase};

verus! {

/// A flow cannot begin for a node with an outstanding request: where one
/// of the targets is pending, the targets are not accepted.
pub proof fn lemma_pending_target_rejected(states: Seq<NodeState>, ids: Seq<usize>, phase: Phase, i: int)
    requires
        phase.spec_is_begin(),
        0 <= i < ids.len(),
        1 <= ids[i] <= states.len(),
        states[ids[i] - 1].spec_is_pending(),
    ensures
        !targets_ok(states, ids, phase),
{
    lemma_pending_not_selectable(phase, states[ids[i] - 1]);
    assert(!target_ok(states, ids, phase, i));
}

/// A scan for the nodes to unbond, or for those whose failed stake is to be
/// claimed, selects no node with an outstanding request.
pub proof fn lemma_scan_skips_pending(states: Seq<NodeState>, phase: Phase, id: usize)
    requires
        phase.spec_is_begin() || phase is ClaimOk,
        states.len() <= usize::MAX,
        due_desc(states, phase, states.len()).contains(id),
    ensures
        1 <= id <= states.len(),
        !states[id - 1].spec_is_pending(),
{
    lemma_due_desc(states, phase, states.len());
    let d = due_desc(states, phase, states.len());
    let w = choose|w: int| 0 <= w < d.len() && d[w] == id;
    assert(1 <= d[w] <= states.len());
}

/// A scan for the nodes to activate selects no node with an outstanding
/// request.
pub proof fn lemma_activation_skips_pending(states: Seq<NodeState>, limit: nat, id: usize)
    requires
        states.len() <= usize::MAX,
        first_asc(states, Phase::StakeBegin, states.len(), limit).contains(id),
    ensures
        1 <= id <= states.len(),
        states[id - 1] is Inactive,
{
    lemma_first_asc(states, Phase::StakeBegin, states.len(), limit);
    let d = first_asc(states, Phase::StakeBegin, states.len(), limit);
    let w = choose|w: int| 0 <= w < d.len() && d[w] == id;
    assert(1 <= d[w] <= states.len());
}

/// The stake of `n` nodes that went from waiting to pending activation.
proof fn lemma_stake_begun(funds: Seq<Bucket>, n: nat, spn: nat, k: FundType)
    requires
        funds_ok(funds, n, spn, Phase::StakeBegin),
    ensures
        sum(funded(funds, n, spn, Phase::StakeBegin), None, Some(k)) == sum(funds, None, Some(k)) - (if k
            == FundType::Waiting {
            n * spn
        } else {
            0
        }) + (if k == FundType::PendingActivation {
            n * spn
        } else {
            0
        }),
        n * spn <= sum(funds, None, Some(FundType::Waiting)),
        forall|obs: Option<usize>| #[trigger]
            sum(funded(funds, n, spn, Phase::StakeBegin), obs, None) == sum(funds, obs, None),
{
    let p = Phase::StakeBegin;
    lemma_eligible_sum_all(funds, None, p.spec_source(), p.spec_rule());
    lemma_converted_accounts(funds, n * spn, None, p.spec_source(), p.spec_rule(), None, k);
    assert forall|obs: Option<usize>| #[trigger]
        sum(funded(funds, n, spn, Phase::StakeBegin), obs, None) == sum(funds, obs, None) by {
        lemma_converted_accounts(funds, n * spn, None, p.spec_source(), p.spec_rule(), obs, k);
    }
}

/// The stake of `n` nodes that left pending activation through `phase`.
proof fn lemma_stake_ended(funds: Seq<Bucket>, n: nat, spn: nat, phase: Phase, k: FundType)
    requires
        phase is StakeOk || phase is StakeFail,
        n * spn <= sum(funds, None, Some(FundType::PendingActivation)),
    ensures
        funds_ok(funds, n, spn, phase),
        sum(funded(funds, n, spn, phase), None, Some(k)) == sum(funds, None, Some(k)) - (if k
            == FundType::PendingActivation {
            n * spn
        } else {
            0
        }) + (if k == phase.spec_rule().spec_target_type() {
            n * spn
        } else {
            0
        }),
        forall|obs: Option<usize>| #[trigger] sum(funded(funds, n, spn, phase), obs, None) == sum(funds, obs, None),
{
    lemma_eligible_sum_all(funds, None, phase.spec_source(), phase.spec_rule());
    lemma_converted_accounts(funds, n * spn, None, phase.spec_source(), phase.spec_rule(), None, k);
    assert forall|obs: Option<usize>| #[trigger]
        sum(funded(funds, n, spn, phase), obs, None) == sum(funds, obs, None) by {
        lemma_converted_accounts(funds, n * spn, None, phase.spec_source(), phase.spec_rule(), obs, k);
    }
}

/// The nodes of a stake request are pending activation, so that both the
/// confirmation and the rejection apply to each.
proof fn lemma_nodes_begun(states: Seq<NodeState>, ids: Seq<usize>, phase: Phase)
    requires
        states.len() <= usize::MAX,
        targets_ok(states, ids, Phase::StakeBegin),
        phase is StakeOk || phase is StakeFail,
    ensures
        targets_ok(advanced(states, ids, Phase::StakeBegin), ids, phase),
        forall|i: int|
            0 <= i < ids.len() ==> #[trigger] advanced(advanced(states, ids, Phase::StakeBegin), ids, phase)[ids[i]
                - 1] == phase.spec_next(NodeState::PendingActivation).unwrap(),
        forall|i: int| 0 <= i < ids.len() ==> states[#[trigger] ids[i] - 1] is Inactive,
        forall|j: int|
            0 <= j < states.len() && !ids.contains((j + 1) as usize) ==> #[trigger] advanced(
                advanced(states, ids, Phase::StakeBegin),
                ids,
                phase,
            )[j] == states[j],
{
    let s1 = advanced(states, ids, Phase::StakeBegin);
    assert forall|i: int| 0 <= i < ids.len() implies target_ok(s1, ids, phase, i) && s1[ids[i] - 1]
        is PendingActivation by {
        assert(target_ok(states, ids, Phase::StakeBegin, i));
        assert(ids.contains(ids[i]));
    }
    assert forall|i: int| 0 <= i < ids.len() implies states[#[trigger] ids[i] - 1] is Inactive by {
        assert(target_ok(states, ids, Phase::StakeBegin, i));
    }
    assert forall|i: int| 0 <= i < ids.len() implies #[trigger] advanced(s1, ids, phase)[ids[i] - 1]
        == phase.spec_next(NodeState::PendingActivation).unwrap() by {
        assert(target_ok(s1, ids, phase, i));
        assert(ids.contains(ids[i]));
    }
}

/// Staking nodes that all succeed: where a stake request for the nodes
/// `ids` was accepted, its confirmation for all of them is accepted too;
/// after it every one of the nodes is active and every other node is as it
/// was, the active stake of the pool is higher and its waiting stake lower
/// by the stake of these nodes, and every owner holds in all what the owner
/// held.
pub proof fn lemma_stake_round_trip_confirmed(states: Seq<NodeState>, funds: Seq<Bucket>, ids: Seq<usize>, spn: nat)
    requires
        states.len() <= usize::MAX,
        targets_ok(states, ids, Phase::StakeBegin),
        funds_ok(funds, ids.len(), spn, Phase::StakeBegin),
    ensures
        ({
            let s1 = advanced(states, ids, Phase::StakeBegin);
            let f1 = funded(funds, ids.len(), spn, Phase::StakeBegin);
            let s2 = advanced(s1, ids, Phase::StakeOk);
            let f2 = funded(f1, ids.len(), spn, Phase::StakeOk);
            &&& targets_ok(s1, ids, Phase::StakeOk)
            &&& funds_ok(f1, ids.len(), spn, Phase::StakeOk)
            &&& forall|i: int| 0 <= i < ids.len() ==> s2[#[trigger] ids[i] - 1] is Active
            &&& forall|j: int|
                0 <= j < states.len() && !ids.contains((j + 1) as usize) ==> #[trigger] s2[j] == states[j]
            &&& sum(f2, None, Some(FundType::Active)) == sum(funds, None, Some(FundType::Active)) + ids.len() * spn
            &&& sum(f2, None, Some(FundType::Waiting)) + ids.len() * spn == sum(funds, None, Some(FundType::Waiting))
            &&& forall|k: FundType|
                k != FundType::Active && k != FundType::Waiting ==> #[trigger] sum(f2, None, Some(k)) == sum(
                    funds,
                    None,
                    Some(k),
                )
            &&& forall|obs: Option<usize>| #[trigger] sum(f2, obs, None) == sum(funds, obs, None)
        }),
{
    let n = ids.len();
    let s1 = advanced(states, ids, Phase::StakeBegin);
    let f1 = funded(funds, n, spn, Phase::StakeBegin);
    let s2 = advanced(s1, ids, Phase::StakeOk);
    let f2 = funded(f1, n, spn, Phase::StakeOk);
    lemma_nodes_begun(states, ids, Phase::StakeOk);
    lemma_stake_begun(funds, n, spn, FundType::PendingActivation);
    lemma_stake_ended(f1, n, spn, Phase::StakeOk, FundType::Active);
    assert forall|k: FundType| true implies #[trigger] sum(f2, None, Some(k)) == sum(funds, None, Some(k)) - (if k
        == FundType::Waiting {
        n * spn
    } else {
        0
    }) + (if k == FundType::Active {
        n * spn
    } else {
        0
    }) by {
        lemma_stake_begun(funds, n, spn, k);
        lemma_stake_ended(f1, n, spn, Phase::StakeOk, k);
    }
    assert forall|i: int| 0 <= i < ids.len() implies s2[#[trigger] ids[i] - 1] is Active by {
        assert(s2[ids[i] - 1] == Phase::StakeOk.spec_next(NodeState::PendingActivation).unwrap());
    }
}

/// Staking nodes that all fail, in a pool that does not keep failed
/// activations: where a stake request for the nodes `ids` was accepted, its
/// rejection for all of them is accepted too; after it every node is in the
/// state it was in before the request, the pool holds in every phase what
/// it held, and every owner holds in all what the owner held.
pub proof fn lemma_stake_round_trip_rejected(states: Seq<NodeState>, funds: Seq<Bucket>, ids: Seq<usize>, spn: nat)
    requires
        states.len() <= usize::MAX,
        targets_ok(states, ids, Phase::StakeBegin),
        funds_ok(funds, ids.len(), spn, Phase::StakeBegin),
    ensures
        ({
            let undo = Phase::StakeFail { keep_failed: false };
            let s1 = advanced(states, ids, Phase::StakeBegin);
            let f1 = funded(funds, ids.len(), spn, Phase::StakeBegin);
            let s2 = advanced(s1, ids, undo);
            let f2 = funded(f1, ids.len(), spn, undo);
            &&& targets_ok(s1, ids, undo)
            &&& funds_ok(f1, ids.len(), spn, undo)
            &&& s2 == states
            &&& forall|k: FundType| #[trigger] sum(f2, None, Some(k)) == sum(funds, None, Some(k))
            &&& forall|obs: Option<usize>| #[trigger] sum(f2, obs, None) == sum(funds, obs, None)
        }),
{
    let undo = Phase::StakeFail { keep_failed: false };
    let n = ids.len();
    let s1 = advanced(states, ids, Phase::StakeBegin);
    let f1 = funded(funds, n, spn, Phase::StakeBegin);
    let s2 = advanced(s1, ids, undo);
    let f2 = funded(f1, n, spn, undo);
    lemma_nodes_begun(states, ids, undo);
    lemma_stake_begun(funds, n, spn, FundType::PendingActivation);
    lemma_stake_ended(f1, n, spn, undo, FundType::Waiting);
    assert forall|k: FundType| #[trigger] sum(f2, None, Some(k)) == sum(funds, None, Some(k)) by {
        lemma_stake_begun(funds, n, spn, k);
        lemma_stake_ended(f1, n, spn, undo, k);
    }
    assert forall|j: int| 0 <= j < states.len() implies s2[j] == states[j] by {
        if ids.contains((j + 1) as usize) {
            let w = choose|w: int| 0 <= w < ids.len() && ids[w] == (j + 1) as usize;
            assert(s2[ids[w] - 1] == undo.spec_next(NodeState::PendingActivation).unwrap());
            assert(states[ids[w] - 1] is Inactive);
        }
    }
    assert(s2 =~= states);
}

/// The full revert, owner by owner: in a pool that does not keep failed
/// activations and holds no other stake pending activation, a stake
/// request followed by its rejection for all nodes leaves every owner, in
/// every phase, with what the owner held.
pub proof fn lemma_stake_round_trip_rejected_by_owner(
    funds: Seq<Bucket>,
    ids: Seq<usize>,
    spn: nat,
    obs: Option<usize>,
    k: FundType,
)
    requires
        funds_ok(funds, ids.len(), spn, Phase::StakeBegin),
        sum(funds, None, Some(FundType::PendingActivation)) == 0,
    ensures
        ({
            let undo = Phase::StakeFail { keep_failed: false };
            let f1 = funded(funds, ids.len(), spn, Phase::StakeBegin);
            let f2 = funded(f1, ids.len(), spn, undo);
            sum(f2, obs, Some(k)) == sum(funds, obs, Some(k))
        }),
{
    let undo = Phase::StakeFail { keep_failed: false };
    let limit = ids.len() * spn;
    let f1 = funded(funds, ids.len(), spn, Phase::StakeBegin);
    let pending = FundType::PendingActivation;
    lemma_stake_begun(funds, ids.len(), spn, pending);
    lemma_converted_accounts(funds, limit, None, FundType::Waiting, Phase::StakeBegin.spec_rule(), obs, k);
    lemma_converted_accounts(funds, limit, None, FundType::Waiting, Phase::StakeBegin.spec_rule(), obs, pending);
    lemma_converted_accounts(f1, limit, None, pending, undo.spec_rule(), obs, k);
    lemma_eligible_sum_all(f1, None, pending, undo.spec_rule());
    lemma_eligible_sum_all(f1, obs, pending, undo.spec_rule());
    lemma_scan_all(f1, limit, pending, undo.spec_rule(), obs);
    lemma_sum_le_total(funds, obs, Some(pending));
}

/// Every step conserves value: for every owner, and for the pool, what is
/// held over all phases stays, and so does what is held in the step's
/// source and target phases together.
pub proof fn lemma_step_conserves(funds: Seq<Bucket>, n: nat, spn: nat, phase: Phase)
    ensures
        conserves(
            funds,
            funded(funds, n, spn, phase),
            phase.spec_source(),
            phase.spec_rule().spec_target_type(),
        ),
{
    lemma_converted_conserves(funds, n * spn, None, phase.spec_source(), phase.spec_rule());
}

} // verus!
