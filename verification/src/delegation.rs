use vstd::prelude::*;
use crate::errors::Error;
use crate::fund_module::{
    converted, eligible_sum, lemma_eligible_sum_le, lemma_scan_nothing, lemma_sum_le_total, sum, FundModule,
};
use crate::fund_type::{Bucket, FundType};
use crate::node_config::{has_entry, lemma_contains_push, pick, NodeConfig, NodeState, NodeStatus};
use crate::phase::{lemma_step_once, Phase};

verus! {

/// Who calls a command.
#[derive(Clone, Copy, Debug, PartialEq, Eq, Structural)]
pub enum Caller {
    Owner,
    Other,
}

/// The configuration that the flows read.
#[derive(Clone, Copy, Debug, PartialEq, Eq, Structural)]
pub struct Settings {
    pub bootstrap_mode: bool,
    pub global_op_in_progress: bool,
    pub auto_activation_enabled: bool,
    pub keep_failed_activation: bool,
    pub stake_per_node: u128,
    pub n_blocks_before_unbond: u64,
}

/// What is sent to the staking authority.
#[derive(Clone, Copy, Debug, PartialEq, Eq, Structural)]
pub enum RequestKind {
    Stake,
    UnStakeNodes,
    UnStake,
    UnBondNodes,
    Claim,
    ClaimUnused,
    UnJail,
}

/// A request to the staking authority, with the nodes that it is
/// outstanding for: `bls_keys` (and `signatures`, in a stake request) hold
/// at each index what belongs to the node at that index of `node_ids`.
#[derive(Debug)]
pub struct AuctionRequest {
    pub kind: RequestKind,
    pub node_ids: Vec<usize>,
    pub bls_keys: Vec<Vec<u8>>,
    pub signatures: Vec<Vec<u8>>,
    pub amount: u128,
    /// Whether rewards have to be recomputed before the request is sent,
    /// because it changes the active stake.
    pub recompute_rewards: bool,
}

/// What the staking authority answered: a status for each node, or one
/// error for the whole batch.
#[derive(Debug)]
pub enum AsyncCallResult {
    Answered(Vec<NodeStatus>),
    Failed { err_code: u32, err_msg: Vec<u8> },
}

/// What settling a response did: the nodes that succeeded and those that
/// failed, the events to emit (one for the successes, one for the failures,
/// each only where there is such a node), and whether rewards have to be
/// recomputed because the active stake changed.
#[derive(Debug)]
pub struct Outcome {
    pub node_ids_ok: Vec<usize>,
    pub node_ids_fail: Vec<usize>,
    pub ok_event: bool,
    pub fail_event: bool,
    pub recompute_rewards: bool,
    /// The code and the message of the authority's error, where it
    /// answered with one error for the whole batch: the failure event
    /// carries this message; else it carries the text for a partial failure.
    pub batch_error: Option<(u32, Vec<u8>)>,
}

/// The staking lifecycle of the nodes of a pool, in lockstep with the
/// pool's fund ledger.
#[derive(Debug)]
pub struct Delegation {
    pub node_config: NodeConfig,
    pub fund_module: FundModule,
    pub settings: Settings,
}

/// Whether `phase` applies to the `i`-th target: it is a registered node,
/// the step applies to its state, and it is no earlier target.
pub open spec fn target_ok(states: Seq<NodeState>, ids: Seq<usize>, phase: Phase, i: int) -> bool {
    &&& 1 <= ids[i] <= states.len()
    &&& phase.spec_next(states[ids[i] - 1]) is Some
    &&& forall|j: int| 0 <= j < i ==> ids[j] != ids[i]
}

/// Whether `phase` applies to every target.
pub open spec fn targets_ok(states: Seq<NodeState>, ids: Seq<usize>, phase: Phase) -> bool {
    forall|i: int| 0 <= i < ids.len() ==> target_ok(states, ids, phase, i)
}

/// Whether the `i`-th target is the first to which `phase` does not apply.
pub open spec fn first_bad(states: Seq<NodeState>, ids: Seq<usize>, phase: Phase, i: int) -> bool {
    &&& 0 <= i < ids.len()
    &&& !target_ok(states, ids, phase, i)
    &&& forall|j: int| 0 <= j < i ==> target_ok(states, ids, phase, j)
}

/// The error for a target to which `phase` does not apply.
pub open spec fn rejection(states: Seq<NodeState>, ids: Seq<usize>, phase: Phase, i: int) -> Error {
    if 1 <= ids[i] <= states.len() {
        phase.spec_state_error()
    } else {
        Error::UnknownNode
    }
}

/// The states after `phase` took every target to which it applies.
pub open spec fn advanced(states: Seq<NodeState>, ids: Seq<usize>, phase: Phase) -> Seq<NodeState> {
    Seq::new(
        states.len(),
        |j: int|
            if ids.contains((j + 1) as usize) && phase.spec_next(states[j]) is Some {
                phase.spec_next(states[j]).unwrap()
            } else {
                states[j]
            },
    )
}

/// Whether the ledger holds what `phase` has to move for `n` nodes.
pub open spec fn funds_ok(funds: Seq<Bucket>, n: nat, stake_per_node: nat, phase: Phase) -> bool {
    n * stake_per_node <= eligible_sum(funds, None, phase.spec_source(), phase.spec_rule())
}

/// The ledger after `phase` moved the stake of `n` nodes.
pub open spec fn funded(funds: Seq<Bucket>, n: nat, stake_per_node: nat, phase: Phase) -> Seq<Bucket> {
    converted(funds, n * stake_per_node, None, phase.spec_source(), phase.spec_rule())
}

/// Whether `e` is the error that `phase` on `ids` ends in: that of the
/// first target to which the step does not apply, or, where it applies to
/// all, that of a ledger that holds too little.
pub open spec fn rejected(
    states: Seq<NodeState>,
    funds: Seq<Bucket>,
    ids: Seq<usize>,
    stake_per_node: nat,
    phase: Phase,
    e: Error,
) -> bool {
    ||| exists|i: int| first_bad(states, ids, phase, i) && e == rejection(states, ids, phase, i)
    ||| targets_ok(states, ids, phase) && !funds_ok(funds, ids.len(), stake_per_node, phase) && e
        == phase.spec_funds_error()
}

/// The error that bars `caller` from a command: the command is the
/// owner's; with `no_bootstrap` it is refused in bootstrap mode, with
/// `no_global_op` while a checkpoint is reset.
pub open spec fn owner_gate(caller: Caller, settings: Settings, no_bootstrap: bool, no_global_op: bool) -> Option<
    Error,
> {
    if caller != Caller::Owner {
        Some(Error::OnlyOwner)
    } else if no_bootstrap && settings.bootstrap_mode {
        Some(Error::BootstrapMode)
    } else if no_global_op && settings.global_op_in_progress {
        Some(Error::GlobalOperationInProgress)
    } else {
        None
    }
}

/// The error that bars a command that is open to every caller: it is
/// refused while a checkpoint is reset.
pub open spec fn pause_gate(settings: Settings) -> Option<Error> {
    if settings.global_op_in_progress {
        Some(Error::GlobalOperationInProgress)
    } else {
        None
    }
}

/// What a command that begins a flow does: barred by `gate`, it changes
/// nothing and returns that error; else it begins the flow.
pub open spec fn gated_begin(
    before: &Delegation,
    after: &Delegation,
    gate: Option<Error>,
    ids: Seq<usize>,
    phase: Phase,
    kind: RequestKind,
    r: Result<Option<AuctionRequest>, Error>,
) -> bool {
    match gate {
        Some(e) => after.same_as(before) && (r matches Err(x) && x == e),
        None => begun(before, after, ids, phase, kind, r),
    }
}

/// What one step does, as a relation between the pool before and after,
/// the nodes and the result.
pub open spec fn stepped(
    before: &Delegation,
    after: &Delegation,
    ids: Seq<usize>,
    phase: Phase,
    r: Result<bool, Error>,
) -> bool {
    let spn = before.settings.stake_per_node as nat;
    &&& after.same_registry(before)
    &&& r is Ok <==> targets_ok(before.spec_states(), ids, phase) && funds_ok(
        before.spec_funds(),
        ids.len(),
        spn,
        phase,
    )
    &&& r matches Ok(event) ==> {
        &&& after.spec_states() == advanced(before.spec_states(), ids, phase)
        &&& after.spec_funds() == funded(before.spec_funds(), ids.len(), spn, phase)
        &&& event == (ids.len() > 0)
    }
    &&& r matches Err(e) ==> after.same_as(before) && rejected(
        before.spec_states(),
        before.spec_funds(),
        ids,
        spn,
        phase,
        e,
    )
}

/// Whether the response holds a status for every requested node.
pub open spec fn complete(cfg: &NodeConfig, ids: Seq<usize>, statuses: Seq<NodeStatus>) -> bool {
    forall|k: int| 0 <= k < ids.len() ==> has_entry(cfg.spec_status_ids(statuses), #[trigger] ids[k])
}

/// What settling a response does, as a relation between the pool before
/// and after, the request's nodes, the response and the result.
pub open spec fn resolved(
    before: &Delegation,
    after: &Delegation,
    ids: Seq<usize>,
    call_result: AsyncCallResult,
    ok_phase: Phase,
    fail_phase: Phase,
    r: Result<Outcome, Error>,
) -> bool {
    match call_result {
        AsyncCallResult::Answered(statuses) => {
            let sids = before.node_config.spec_status_ids(statuses@);
            let codes = NodeConfig::spec_status_codes(statuses@);
            if complete(&before.node_config, ids, statuses@) {
                settled(
                    before,
                    after,
                    pick(ids, sids, codes, false),
                    ok_phase,
                    pick(ids, sids, codes, true),
                    fail_phase,
                    false,
                    r,
                )
            } else {
                after.same_as(before) && (r matches Err(e) && e == Error::MissingNodeStatus)
            }
        },
        AsyncCallResult::Failed { err_code, err_msg } => {
            &&& settled(before, after, Seq::empty(), ok_phase, ids, fail_phase, true, r)
            &&& r matches Ok(out) ==> out.batch_error matches Some(e) && e.0 == err_code && e.1 == err_msg
        },
    }
}

/// The ids of the nodes that have the keys, key by key; 0 for a key that
/// no node has.
pub open spec fn key_ids(cfg: &NodeConfig, keys: Seq<Vec<u8>>) -> Seq<usize> {
    Seq::new(keys.len(), |i: int| cfg.spec_node_id(keys[i]@))
}

/// Whether `req` is the request of kind `kind` for the nodes `ids`.
pub open spec fn request_for(
    cfg: &NodeConfig,
    req: &AuctionRequest,
    kind: RequestKind,
    ids: Seq<usize>,
    amount: u128,
) -> bool {
    &&& req.kind == kind
    &&& req.recompute_rewards == (kind is UnStake || kind is UnStakeNodes)
    &&& req.node_ids@ == ids
    &&& req.amount == amount
    &&& req.bls_keys@.len() == ids.len()
    &&& forall|i: int| 0 <= i < ids.len() ==> (#[trigger] req.bls_keys@[i])@ == cfg.spec_key(ids[i] as int)
    &&& req.signatures@.len() == if kind is Stake { ids.len() } else { 0 }
    &&& kind is Stake ==> forall|i: int|
        0 <= i < ids.len() ==> (#[trigger] req.signatures@[i])@ == cfg.spec_signature(ids[i] as int)
}

/// What the begin of a flow does, as a relation between the pool before
/// and after, the targets and the result: it succeeds exactly where `phase`
/// applies to every target and the ledger holds their stake; then nodes and
/// stake went through `phase`, and a request is returned unless there are
/// no targets; otherwise nothing changed and the error says why.
pub open spec fn begun(
    before: &Delegation,
    after: &Delegation,
    ids: Seq<usize>,
    phase: Phase,
    kind: RequestKind,
    r: Result<Option<AuctionRequest>, Error>,
) -> bool {
    let spn = before.settings.stake_per_node as nat;
    &&& after.same_registry(before)
    &&& r is Ok <==> targets_ok(before.spec_states(), ids, phase) && funds_ok(
        before.spec_funds(),
        ids.len(),
        spn,
        phase,
    )
    &&& r matches Ok(sent) ==> {
        &&& after.spec_states() == advanced(before.spec_states(), ids, phase)
        &&& after.spec_funds() == funded(before.spec_funds(), ids.len(), spn, phase)
        &&& sent is Some <==> ids.len() > 0
        &&& sent matches Some(req) ==> request_for(
            &after.node_config,
            &req,
            kind,
            ids,
            if kind is Stake {
                (ids.len() * spn) as u128
            } else {
                0
            },
        )
    }
    &&& r matches Err(e) ==> after.same_as(before) && rejected(
        before.spec_states(),
        before.spec_funds(),
        ids,
        spn,
        phase,
        e,
    )
}

/// What settling a response does, as a relation between the pool before
/// and after, the two subsets, whether the authority answered with one
/// error for the batch, and the result.
pub open spec fn settled(
    before: &Delegation,
    after: &Delegation,
    ok: Seq<usize>,
    ok_phase: Phase,
    fail: Seq<usize>,
    fail_phase: Phase,
    batch: bool,
    r: Result<Outcome, Error>,
) -> bool {
    let spn = before.settings.stake_per_node as nat;
    let ok_first = targets_ok(before.spec_states(), ok, ok_phase) && funds_ok(
        before.spec_funds(),
        ok.len(),
        spn,
        ok_phase,
    );
    let mid_states = advanced(before.spec_states(), ok, ok_phase);
    let mid_funds = funded(before.spec_funds(), ok.len(), spn, ok_phase);
    &&& after.same_registry(before)
    &&& r is Ok <==> ok_first && targets_ok(mid_states, fail, fail_phase) && funds_ok(
        mid_funds,
        fail.len(),
        spn,
        fail_phase,
    )
    &&& r matches Ok(out) ==> {
        &&& after.spec_states() == advanced(mid_states, fail, fail_phase)
        &&& after.spec_funds() == funded(mid_funds, fail.len(), spn, fail_phase)
        &&& out.node_ids_ok@ == ok
        &&& out.node_ids_fail@ == fail
        &&& out.ok_event == (ok.len() > 0)
        &&& out.fail_event == (fail.len() > 0)
        &&& out.recompute_rewards == ((ok_phase is StakeOk && ok.len() > 0) || (!(ok_phase is StakeOk)
            && fail_phase is UnStakeFail && fail.len() > 0))
        &&& batch == out.batch_error is Some
    }
    &&& r matches Err(e) ==> {
        &&& after.same_as(before)
        &&& if ok_first {
            rejected(mid_states, mid_funds, fail, spn, fail_phase, e)
        } else {
            rejected(before.spec_states(), before.spec_funds(), ok, spn, ok_phase, e)
        }
    }
}

/// The first `limit` nodes among the first `k` to which `phase` applies,
/// from the lowest id up.
pub open spec fn first_asc(states: Seq<NodeState>, phase: Phase, k: nat, limit: nat) -> Seq<usize>
    decreases k,
{
    if k == 0 || k > states.len() {
        Seq::empty()
    } else {
        let prev = first_asc(states, phase, (k - 1) as nat, limit);
        if prev.len() < limit && phase.spec_next(states[k - 1]) is Some {
            prev.push(k as usize)
        } else {
            prev
        }
    }
}

/// The number of nodes whose stake the waiting stake of the pool covers.
pub open spec fn stake_limit(pool: &Delegation) -> nat {
    if pool.settings.stake_per_node == 0 {
        u128::MAX as nat
    } else {
        sum(pool.spec_funds(), None, Some(FundType::Waiting)) / (pool.settings.stake_per_node as nat)
    }
}

/// The nodes among the first `k` to which `phase` applies, from the
/// highest id down.
pub open spec fn due_desc(states: Seq<NodeState>, phase: Phase, k: nat) -> Seq<usize>
    decreases k,
{
    if k == 0 || k > states.len() {
        Seq::empty()
    } else if phase.spec_next(states[k - 1]) is Some {
        seq![k as usize] + due_desc(states, phase, (k - 1) as nat)
    } else {
        due_desc(states, phase, (k - 1) as nat)
    }
}

/// The nodes that an ascending scan selects are registered, the step
/// applies to each, their ids rise, and they are `limit` at most.
pub proof fn lemma_first_asc(states: Seq<NodeState>, phase: Phase, k: nat, limit: nat)
    requires
        k <= states.len(),
        states.len() <= usize::MAX,
    ensures
        first_asc(states, phase, k, limit).len() <= limit,
        first_asc(states, phase, k, limit).len() <= k,
        forall|i: int|
            0 <= i < first_asc(states, phase, k, limit).len() ==> 1 <= #[trigger] first_asc(
                states,
                phase,
                k,
                limit,
            )[i] <= k && phase.spec_next(states[first_asc(states, phase, k, limit)[i] - 1]) is Some,
        forall|i: int, j: int|
            0 <= i < j < first_asc(states, phase, k, limit).len() ==> first_asc(states, phase, k, limit)[i]
                < first_asc(states, phase, k, limit)[j],
        targets_ok(states, first_asc(states, phase, k, limit), phase),
    decreases k,
{
    if k > 0 {
        lemma_first_asc(states, phase, (k - 1) as nat, limit);
    }
}

/// Waiting stake that covers `limit` nodes covers fewer.
pub proof fn lemma_covered(n: nat, limit: nat, stake_per_node: nat, waiting: nat)
    requires
        n <= limit,
        stake_per_node > 0 ==> limit == waiting / stake_per_node,
    ensures
        n * stake_per_node <= waiting,
{
    if stake_per_node > 0 {
        assert(n * stake_per_node <= limit * stake_per_node) by (nonlinear_arith)
            requires
                n <= limit,
        ;
        assert((waiting / stake_per_node) * stake_per_node <= waiting) by (nonlinear_arith)
            requires
                stake_per_node > 0,
        ;
    } else {
        assert(n * stake_per_node == 0) by (nonlinear_arith)
            requires
                stake_per_node == 0,
        ;
    }
}

/// The nodes that a scan selects are registered, the step applies to each,
/// and their ids fall.
pub proof fn lemma_due_desc(states: Seq<NodeState>, phase: Phase, k: nat)
    requires
        k <= states.len(),
        states.len() <= usize::MAX,
    ensures
        forall|i: int|
            0 <= i < due_desc(states, phase, k).len() ==> 1 <= #[trigger] due_desc(states, phase, k)[i] <= k
                && phase.spec_next(states[due_desc(states, phase, k)[i] - 1]) is Some,
        forall|i: int, j: int|
            0 <= i < j < due_desc(states, phase, k).len() ==> due_desc(states, phase, k)[i] > due_desc(
                states,
                phase,
                k,
            )[j],
        forall|id: usize|
            1 <= id <= k && phase.spec_next(states[id - 1]) is Some ==> due_desc(states, phase, k).contains(id),
        targets_ok(states, due_desc(states, phase, k), phase),
    decreases k,
{
    if k > 0 {
        lemma_due_desc(states, phase, (k - 1) as nat);
        let d = due_desc(states, phase, k);
        let d0 = due_desc(states, phase, (k - 1) as nat);
        assert forall|id: usize| 1 <= id <= k && phase.spec_next(states[id - 1]) is Some implies d.contains(
            id,
        ) by {
            if id == k {
                assert(d[0] == id);
            } else {
                assert(d0.contains(id));
                let w = choose|w: int| 0 <= w < d0.len() && d0[w] == id;
                if phase.spec_next(states[k - 1]) is Some {
                    assert(d[w + 1] == id);
                } else {
                    assert(d[w] == id);
                }
            }
        }
    }
}

/// A copy of the states.
pub fn copy_states(v: &Vec<NodeState>) -> (r: Vec<NodeState>)
    ensures
        r@ == v@,
{
    let mut out: Vec<NodeState> = Vec::new();
    let mut i: usize = 0;
    while i < v.len()
        invariant
            i <= v.len(),
            out@ == v@.take(i as int),
        decreases v.len() - i,
    {
        out.push(v[i]);
        proof {
            assert(v@.take(i + 1) =~= v@.take(i as int).push(v@[i as int]));
        }
        i = i + 1;
    }
    proof {
        assert(v@.take(i as int) =~= v@);
    }
    out
}

/// The error that bars `caller` from an owner's command, if any.
pub fn check_owner_gate(caller: Caller, settings: Settings, no_bootstrap: bool, no_global_op: bool) -> (r: Option<
    Error,
>)
    ensures
        r == owner_gate(caller, settings, no_bootstrap, no_global_op),
{
    match caller {
        Caller::Other => Some(Error::OnlyOwner),
        Caller::Owner => {
            if no_bootstrap && settings.bootstrap_mode {
                Some(Error::BootstrapMode)
            } else if no_global_op && settings.global_op_in_progress {
                Some(Error::GlobalOperationInProgress)
            } else {
                None
            }
        },
    }
}

/// A copy of the buckets.
pub fn copy_buckets(v: &Vec<Bucket>) -> (r: Vec<Bucket>)
    ensures
        r@ == v@,
{
    let mut out: Vec<Bucket> = Vec::new();
    let mut i: usize = 0;
    while i < v.len()
        invariant
            i <= v.len(),
            out@ == v@.take(i as int),
        decreases v.len() - i,
    {
        out.push(v[i]);
        proof {
            assert(v@.take(i + 1) =~= v@.take(i as int).push(v@[i as int]));
        }
        i = i + 1;
    }
    proof {
        assert(v@.take(i as int) =~= v@);
    }
    out
}

impl Delegation {
    /// The registry and the ledger are well formed.
    pub open spec fn wf(&self) -> bool {
        self.node_config.wf() && self.fund_module.wf()
    }

    /// The states of the nodes, that of node `id` at index `id - 1`.
    pub open spec fn spec_states(&self) -> Seq<NodeState> {
        self.node_config.states@
    }

    /// The buckets of the ledger, in scan order.
    pub open spec fn spec_funds(&self) -> Seq<Bucket> {
        self.fund_module@
    }

    /// Whether `self` differs from `other` in node states and ledger at
    /// most.
    pub open spec fn same_registry(&self, other: &Delegation) -> bool {
        &&& self.node_config.keys == other.node_config.keys
        &&& self.node_config.signatures == other.node_config.signatures
        &&& self.settings == other.settings
    }

    /// Whether `self` and `other` hold the same.
    pub open spec fn same_as(&self, other: &Delegation) -> bool {
        &&& self.same_registry(other)
        &&& self.spec_states() == other.spec_states()
        &&& self.spec_funds() == other.spec_funds()
    }

    /// A pool without nodes and without stake.
    pub fn new(settings: Settings) -> (r: Delegation)
        ensures
            r.wf(),
            r.settings == settings,
            r.spec_states() == Seq::<NodeState>::empty(),
            r.spec_funds() == Seq::<Bucket>::empty(),
    {
        Delegation {
            node_config: NodeConfig::new(),
            fund_module: FundModule::new(),
            settings,
        }
    }

    /// Takes every node of `node_ids` through `phase`. Fails, and changes
    /// nothing, at the first node to which the step does not apply: one
    /// that is not registered, one in another state, or one named before.
    pub fn advance_nodes(&mut self, node_ids: &Vec<usize>, phase: Phase) -> (r: Result<(), Error>)
        requires
            old(self).wf(),
        ensures
            final(self).wf(),
            final(self).same_registry(old(self)),
            final(self).spec_funds() == old(self).spec_funds(),
            r is Ok <==> targets_ok(old(self).spec_states(), node_ids@, phase),
            r is Ok ==> final(self).spec_states() == advanced(old(self).spec_states(), node_ids@, phase),
            r is Err ==> final(self).spec_states() == old(self).spec_states(),
            r is Err ==> exists|i: int|
                first_bad(old(self).spec_states(), node_ids@, phase, i) && r == Err::<(), Error>(
                    rejection(old(self).spec_states(), node_ids@, phase, i),
                ),
    {
        let ghost before = self.node_config.states@;
        let saved = copy_states(&self.node_config.states);
        let n = self.node_config.states.len();
        let mut i: usize = 0;
        proof {
            assert(self.node_config.states@ =~= advanced(before, node_ids@.take(0), phase));
        }
        while i < node_ids.len()
            invariant
                i <= node_ids.len(),
                saved@ == before,
                before == old(self).spec_states(),
                n == before.len(),
                self.wf(),
                self.same_registry(old(self)),
                self.spec_funds() == old(self).spec_funds(),
                self.node_config.states@ == advanced(before, node_ids@.take(i as int), phase),
                forall|m: int| 0 <= m < i ==> target_ok(before, node_ids@, phase, m),
            decreases node_ids.len() - i,
        {
            let id = node_ids[i];
            let ghost prefix = node_ids@.take(i as int);
            if id == 0 || id > n {
                self.node_config.states = saved;
                proof {
                    assert(first_bad(before, node_ids@, phase, i as int));
                }
                return Err(Error::UnknownNode);
            }
            let cur = self.node_config.states[id - 1];
            proof {
                if prefix.contains(id) {
                    let m = choose|m: int| 0 <= m < prefix.len() && prefix[m] == id;
                    assert(node_ids@[m] == id);
                    assert(target_ok(before, node_ids@, phase, m));
                    lemma_step_once(phase, before[id - 1]);
                } else {
                    assert forall|j: int| 0 <= j < i implies node_ids@[j] != node_ids@[i as int] by {
                        if node_ids@[j] == id {
                            assert(prefix[j] == id);
                        }
                    }
                }
            }
            match phase.next(cur) {
                None => {
                    self.node_config.states = saved;
                    proof {
                        assert(first_bad(before, node_ids@, phase, i as int));
                    }
                    return Err(phase.state_error());
                },
                Some(next) => {
                    self.node_config.states.set(id - 1, next);
                    proof {
                        let longer = node_ids@.take(i + 1);
                        assert(longer =~= prefix.push(id));
                        lemma_contains_push(prefix, id);
                        assert(target_ok(before, node_ids@, phase, i as int));
                        assert(self.node_config.states@ =~= advanced(before, longer, phase));
                    }
                },
            }
            i = i + 1;
        }
        proof {
            assert(node_ids@.take(i as int) =~= node_ids@);
        }
        Ok(())
    }

    /// Moves the stake of `n` nodes as `phase` says. Fails, and changes
    /// nothing, where the ledger holds less than that in the source phase.
    pub fn advance_funds(&mut self, n: usize, phase: Phase) -> (r: Result<u128, Error>)
        requires
            old(self).wf(),
        ensures
            final(self).wf(),
            final(self).same_registry(old(self)),
            final(self).spec_states() == old(self).spec_states(),
            r is Ok <==> funds_ok(old(self).spec_funds(), n as nat, old(self).settings.stake_per_node as nat, phase),
            r is Ok ==> r.unwrap() == n * old(self).settings.stake_per_node,
            r is Ok ==> final(self).spec_funds() == funded(
                old(self).spec_funds(),
                n as nat,
                old(self).settings.stake_per_node as nat,
                phase,
            ),
            r is Err ==> final(self).spec_funds() == old(self).spec_funds(),
            r is Err ==> r == Err::<u128, Error>(phase.spec_funds_error()),
    {
        let source = phase.source();
        let rule = phase.rule();
        let available = self.fund_module.query_sum_funds_by_user_type(None, source, rule);
        proof {
            lemma_eligible_sum_le(self.spec_funds(), None, source, rule);
            lemma_sum_le_total(self.spec_funds(), None, Some(source));
        }
        let count: u128 = n as u128;
        match count.checked_mul(self.settings.stake_per_node) {
            None => Err(phase.funds_error()),
            Some(needed) => {
                if needed > available {
                    Err(phase.funds_error())
                } else {
                    let _ = self.fund_module.split_convert_max_by_type(Some(needed), source, rule);
                    Ok(needed)
                }
            },
        }
    }

    /// Takes the nodes of `node_ids` and their stake through `phase`, both
    /// or neither.
    pub fn advance(&mut self, node_ids: &Vec<usize>, phase: Phase) -> (r: Result<u128, Error>)
        requires
            old(self).wf(),
        ensures
            final(self).wf(),
            final(self).same_registry(old(self)),
            r is Ok <==> targets_ok(old(self).spec_states(), node_ids@, phase) && funds_ok(
                old(self).spec_funds(),
                node_ids@.len(),
                old(self).settings.stake_per_node as nat,
                phase,
            ),
            r is Ok ==> {
                &&& r.unwrap() == node_ids@.len() * old(self).settings.stake_per_node
                &&& final(self).spec_states() == advanced(old(self).spec_states(), node_ids@, phase)
                &&& final(self).spec_funds() == funded(
                    old(self).spec_funds(),
                    node_ids@.len(),
                    old(self).settings.stake_per_node as nat,
                    phase,
                )
            },
            r is Err ==> final(self).same_as(old(self)),
            r matches Err(e) ==> rejected(
                old(self).spec_states(),
                old(self).spec_funds(),
                node_ids@,
                old(self).settings.stake_per_node as nat,
                phase,
                e,
            ),
    {
        let saved = copy_states(&self.node_config.states);
        match self.advance_nodes(node_ids, phase) {
            Err(e) => Err(e),
            Ok(()) => {
                match self.advance_funds(node_ids.len(), phase) {
                    Err(e) => {
                        self.node_config.states = saved;
                        Err(e)
                    },
                    Ok(moved) => Ok(moved),
                }
            },
        }
    }

    /// The ids of the nodes that have the keys, key by key; 0 for a key that
    /// no node has.
    pub fn resolve_ids(&self, bls_keys: &Vec<Vec<u8>>) -> (r: Vec<usize>)
        requires
            self.wf(),
        ensures
            r@ == key_ids(&self.node_config, bls_keys@),
            forall|i: int| 0 <= i < r@.len() ==> #[trigger] r@[i] == 0 || self.node_config.valid_id(r@[i]),
    {
        let ghost want = key_ids(&self.node_config, bls_keys@);
        let mut out: Vec<usize> = Vec::new();
        let mut i: usize = 0;
        while i < bls_keys.len()
            invariant
                i <= bls_keys.len(),
                self.wf(),
                want == key_ids(&self.node_config, bls_keys@),
                out@ == want.take(i as int),
                forall|j: int| 0 <= j < i ==> #[trigger] out@[j] == 0 || self.node_config.valid_id(out@[j]),
            decreases bls_keys.len() - i,
        {
            let id = self.node_config.get_node_id(&bls_keys[i]);
            out.push(id);
            proof {
                assert(want.take(i + 1) =~= want.take(i as int).push(want[i as int]));
            }
            i = i + 1;
        }
        proof {
            assert(want.take(i as int) =~= want);
        }
        out
    }

    /// The request of kind `kind` for the nodes of `node_ids`, with their
    /// keys (and, for a stake request, their signatures) in the same order.
    pub fn build_request(&self, kind: RequestKind, node_ids: Vec<usize>, amount: u128) -> (r: AuctionRequest)
        requires
            self.wf(),
            forall|i: int| 0 <= i < node_ids@.len() ==> self.node_config.valid_id(#[trigger] node_ids@[i]),
        ensures
            request_for(&self.node_config, &r, kind, node_ids@, amount),
    {
        let mut bls_keys: Vec<Vec<u8>> = Vec::new();
        let mut signatures: Vec<Vec<u8>> = Vec::new();
        let with_signatures = match kind {
            RequestKind::Stake => true,
            _ => false,
        };
        let mut i: usize = 0;
        while i < node_ids.len()
            invariant
                i <= node_ids.len(),
                self.wf(),
                with_signatures == (kind is Stake),
                forall|m: int| 0 <= m < node_ids@.len() ==> self.node_config.valid_id(#[trigger] node_ids@[m]),
                bls_keys@.len() == i,
                signatures@.len() == if with_signatures { i as int } else { 0 },
                forall|m: int| 0 <= m < i ==> (#[trigger] bls_keys@[m])@ == self.node_config.spec_key(node_ids@[m] as int),
                with_signatures ==> forall|m: int|
                    0 <= m < i ==> (#[trigger] signatures@[m])@ == self.node_config.spec_signature(
                        node_ids@[m] as int,
                    ),
            decreases node_ids.len() - i,
        {
            let id = node_ids[i];
            bls_keys.push(self.node_config.get_node_id_to_bls(id));
            if with_signatures {
                signatures.push(self.node_config.get_node_signature(id));
            }
            i = i + 1;
        }
        let recompute_rewards = match kind {
            RequestKind::UnStake => true,
            RequestKind::UnStakeNodes => true,
            _ => false,
        };
        AuctionRequest { kind, node_ids, bls_keys, signatures, amount, recompute_rewards }
    }

    /// Begins a flow for the nodes of `node_ids`: takes them and their
    /// stake through `phase`, and returns the request to send. Without
    /// nodes nothing changes and nothing is to be sent.
    pub fn begin(&mut self, node_ids: Vec<usize>, phase: Phase, kind: RequestKind) -> (r: Result<
        Option<AuctionRequest>,
        Error,
    >)
        requires
            old(self).wf(),
        ensures
            final(self).wf(),
            begun(old(self), final(self), node_ids@, phase, kind, r),
    {
        if node_ids.len() == 0 {
            proof {
                let s = self.spec_funds();
                lemma_scan_nothing(s, 0, None, phase.spec_source(), phase.spec_rule());
                assert(s + Seq::<Bucket>::empty() =~= s);
                assert(advanced(self.spec_states(), node_ids@, phase) =~= self.spec_states());
                assert(0 * (self.settings.stake_per_node as nat) == 0) by (nonlinear_arith);
            }
            return Ok(None);
        }
        match self.advance(&node_ids, phase) {
            Err(e) => Err(e),
            Ok(moved) => {
                let amount = match kind {
                    RequestKind::Stake => moved,
                    _ => 0,
                };
                proof {
                    assert forall|i: int| 0 <= i < node_ids@.len() implies self.node_config.valid_id(
                        #[trigger] node_ids@[i],
                    ) by {
                        assert(target_ok(old(self).spec_states(), node_ids@, phase, i));
                    }
                }
                let req = self.build_request(kind, node_ids, amount);
                Ok(Some(req))
            },
        }
    }

    /// The nodes to which `phase` applies, from the highest id down.
    pub fn collect_due(&self, phase: Phase) -> (r: Vec<usize>)
        requires
            self.wf(),
        ensures
            r@ == due_desc(self.spec_states(), phase, self.spec_states().len()),
            targets_ok(self.spec_states(), r@, phase),
    {
        let ghost states = self.spec_states();
        let mut out: Vec<usize> = Vec::new();
        let mut id: usize = self.node_config.num_nodes();
        proof {
            assert(out@ + due_desc(states, phase, id as nat) =~= due_desc(states, phase, states.len()));
        }
        while id >= 1
            invariant
                id <= states.len(),
                states == self.spec_states(),
                out@ + due_desc(states, phase, id as nat) == due_desc(states, phase, states.len()),
            decreases id,
        {
            let ghost before = out@;
            if phase.next(self.node_config.get_node_state(id)).is_some() {
                out.push(id);
            }
            proof {
                let rest = due_desc(states, phase, (id - 1) as nat);
                assert(out@ + rest =~= before + due_desc(states, phase, id as nat));
            }
            id = id - 1;
        }
        proof {
            assert(out@ + due_desc(states, phase, 0) =~= out@);
            lemma_due_desc(states, phase, states.len());
        }
        out
    }

    /// The first `limit` nodes to which `phase` applies, from the lowest id
    /// up.
    pub fn collect_first(&self, phase: Phase, limit: u128) -> (r: Vec<usize>)
        requires
            self.wf(),
        ensures
            r@ == first_asc(self.spec_states(), phase, self.spec_states().len(), limit as nat),
            targets_ok(self.spec_states(), r@, phase),
            r@.len() <= limit,
    {
        let ghost states = self.spec_states();
        let n = self.node_config.num_nodes();
        let mut out: Vec<usize> = Vec::new();
        let mut id: usize = 0;
        while id < n
            invariant
                id <= n,
                n == states.len(),
                states == self.spec_states(),
                out@ == first_asc(states, phase, id as nat, limit as nat),
                out@.len() <= id,
            decreases n - id,
        {
            id = id + 1;
            if (out.len() as u128) < limit && phase.next(self.node_config.get_node_state(id)).is_some() {
                out.push(id);
            }
        }
        proof {
            lemma_first_asc(states, phase, states.len(), limit as nat);
        }
        out
    }

    /// Settles a response: the nodes of `node_ids_ok` and their stake go
    /// through `ok_phase`, then those of `node_ids_fail` through
    /// `fail_phase`; all of it, or nothing.
    pub fn settle(&mut self, node_ids_ok: Vec<usize>, ok_phase: Phase, node_ids_fail: Vec<usize>, fail_phase: Phase) -> (r:
        Result<Outcome, Error>)
        requires
            old(self).wf(),
        ensures
            final(self).wf(),
            settled(old(self), final(self), node_ids_ok@, ok_phase, node_ids_fail@, fail_phase, false, r),
    {
        let saved_states = copy_states(&self.node_config.states);
        let saved_funds = copy_buckets(&self.fund_module.buckets);
        match self.advance(&node_ids_ok, ok_phase) {
            Err(e) => Err(e),
            Ok(_) => {
                match self.advance(&node_ids_fail, fail_phase) {
                    Err(e) => {
                        self.node_config.states = saved_states;
                        self.fund_module.buckets = saved_funds;
                        Err(e)
                    },
                    Ok(_) => {
                        let ok_event = node_ids_ok.len() > 0;
                        let fail_event = node_ids_fail.len() > 0;
                        let recompute_rewards = match (ok_phase, fail_phase) {
                            (Phase::StakeOk, _) => ok_event,
                            (_, Phase::UnStakeFail) => fail_event,
                            _ => false,
                        };
                        Ok(
                            Outcome {
                                node_ids_ok,
                                node_ids_fail,
                                ok_event,
                                fail_event,
                                recompute_rewards,
                                batch_error: None,
                            },
                        )
                    },
                }
            },
        }
    }

    /// Takes the nodes of `node_ids` and their stake through `phase`, and
    /// says whether there is anything to report: whether there was a node.
    pub fn step(&mut self, node_ids: &Vec<usize>, phase: Phase) -> (r: Result<bool, Error>)
        requires
            old(self).wf(),
        ensures
            final(self).wf(),
            stepped(old(self), final(self), node_ids@, phase, r),
    {
        match self.advance(node_ids, phase) {
            Err(e) => Err(e),
            Ok(_) => Ok(node_ids.len() > 0),
        }
    }

    /// Settles the response to a request that is outstanding for the nodes
    /// of `node_ids`. With a status for each node, those without a reported
    /// failure go through `ok_phase` and the others through `fail_phase`;
    /// with one error for the batch, all go through `fail_phase`. Fails, and
    /// changes nothing, where a requested node has no status.
    pub fn resolve(&mut self, node_ids: Vec<usize>, call_result: AsyncCallResult, ok_phase: Phase, fail_phase: Phase) -> (r:
        Result<Outcome, Error>)
        requires
            old(self).wf(),
        ensures
            final(self).wf(),
            resolved(old(self), final(self), node_ids@, call_result, ok_phase, fail_phase, r),
    {
        match call_result {
            AsyncCallResult::Answered(node_status_args) => {
                match self.node_config.split_node_ids_by_err(&node_ids, &node_status_args) {
                    Err(e) => Err(e),
                    Ok((node_ids_ok, node_ids_fail)) => self.settle(node_ids_ok, ok_phase, node_ids_fail, fail_phase),
                }
            },
            AsyncCallResult::Failed { err_code, err_msg } => {
                match self.settle(Vec::new(), ok_phase, node_ids, fail_phase) {
                    Err(e) => Err(e),
                    Ok(out) => Ok(
                        Outcome {
                            node_ids_ok: out.node_ids_ok,
                            node_ids_fail: out.node_ids_fail,
                            ok_event: out.ok_event,
                            fail_event: out.fail_event,
                            recompute_rewards: out.recompute_rewards,
                            batch_error: Some((err_code, err_msg)),
                        },
                    ),
                }
            },
        }
    }
}

} // verus!
