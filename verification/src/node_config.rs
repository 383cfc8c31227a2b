use vstd::prelude::*;
use crate::errors::Error;

verus! {

/// The validator state of a node.
#[derive(Clone, Copy, Debug, PartialEq, Eq, Structural)]
pub enum NodeState {
    Inactive,
    PendingActivation,
    ActivationFailed,
    Active,
    PendingDeactivation,
    UnBondPeriod { started: u64 },
    PendingUnBond { unbond_started: u64 },
}

impl NodeState {
    /// Whether a request to the staking authority is outstanding for a node
    /// in this state.
    pub open spec fn spec_is_pending(self) -> bool {
        self is PendingActivation || self is PendingDeactivation || self is PendingUnBond
    }

    /// Whether a request to the staking authority is outstanding for a node
    /// in this state.
    pub fn is_pending(&self) -> (r: bool)
        ensures
            r == self.spec_is_pending(),
    {
        match self {
            NodeState::PendingActivation => true,
            NodeState::PendingDeactivation => true,
            NodeState::PendingUnBond { .. } => true,
            _ => false,
        }
    }
}

/// The status that the staking authority reports for one node: zero for
/// success.
#[derive(Debug)]
pub struct NodeStatus {
    pub bls_key: Vec<u8>,
    pub status: u32,
}

/// Whether the two byte strings are equal.
pub fn bytes_eq(a: &Vec<u8>, b: &Vec<u8>) -> (r: bool)
    ensures
        r == (a@ == b@),
{
    if a.len() != b.len() {
        return false;
    }
    let mut i: usize = 0;
    while i < a.len()
        invariant
            i <= a.len(),
            a.len() == b.len(),
            forall|j: int| 0 <= j < i ==> a@[j] == b@[j],
        decreases a.len() - i,
    {
        if a[i] != b[i] {
            return false;
        }
        i = i + 1;
    }
    proof {
        assert(a@ =~= b@);
    }
    true
}

/// A copy of the byte string.
pub fn bytes_copy(a: &Vec<u8>) -> (r: Vec<u8>)
    ensures
        r@ == a@,
{
    let mut out: Vec<u8> = Vec::new();
    let mut i: usize = 0;
    while i < a.len()
        invariant
            i <= a.len(),
            out@ == a@.take(i as int),
        decreases a.len() - i,
    {
        out.push(a[i]);
        proof {
            assert(a@.take(i + 1) =~= a@.take(i as int).push(a@[i as int]));
        }
        i = i + 1;
    }
    proof {
        assert(a@.take(i as int) =~= a@);
    }
    out
}

/// Whether the authority reported an entry for node `id`.
pub open spec fn has_entry(sids: Seq<usize>, id: usize) -> bool {
    sids.contains(id)
}

/// Whether the authority reported a failure for node `id`.
pub open spec fn has_failure(sids: Seq<usize>, codes: Seq<u32>, id: usize) -> bool {
    exists|i: int| 0 <= i < sids.len() && i < codes.len() && sids[i] == id && codes[i] != 0
}

/// The nodes of `ids`, in order, for which a failure was reported
/// (`failed`), or for which none was.
pub open spec fn pick(ids: Seq<usize>, sids: Seq<usize>, codes: Seq<u32>, failed: bool) -> Seq<usize>
    decreases ids.len(),
{
    if ids.len() == 0 {
        Seq::empty()
    } else if has_failure(sids, codes, ids.last()) == failed {
        pick(ids.drop_last(), sids, codes, failed).push(ids.last())
    } else {
        pick(ids.drop_last(), sids, codes, failed)
    }
}

/// The two subsets of a response part the request: each requested node is
/// in exactly one of them, and neither holds anything else.
pub proof fn lemma_partition(ids: Seq<usize>, sids: Seq<usize>, codes: Seq<u32>)
    ensures
        pick(ids, sids, codes, false).len() + pick(ids, sids, codes, true).len() == ids.len(),
        forall|x: usize|
            ids.contains(x) <==> (pick(ids, sids, codes, false).contains(x) || pick(ids, sids, codes, true).contains(x)),
        forall|x: usize| !(pick(ids, sids, codes, false).contains(x) && pick(ids, sids, codes, true).contains(x)),
        forall|x: usize| pick(ids, sids, codes, true).contains(x) ==> has_failure(sids, codes, x),
        forall|x: usize| pick(ids, sids, codes, false).contains(x) ==> !has_failure(sids, codes, x),
    decreases ids.len(),
{
    if ids.len() > 0 {
        let rest = ids.drop_last();
        let x0 = ids.last();
        lemma_partition(rest, sids, codes);
        let ok = pick(ids, sids, codes, false);
        let bad = pick(ids, sids, codes, true);
        let ok0 = pick(rest, sids, codes, false);
        let bad0 = pick(rest, sids, codes, true);
        assert forall|x: usize| ids.contains(x) <==> (rest.contains(x) || x == x0) by {
            if ids.contains(x) {
                let k = choose|k: int| 0 <= k < ids.len() && ids[k] == x;
                if k < ids.len() - 1 {
                    assert(rest[k] == x);
                }
            }
            if rest.contains(x) {
                let k = choose|k: int| 0 <= k < rest.len() && rest[k] == x;
                assert(ids[k] == x);
            }
            if x == x0 {
                assert(ids[ids.len() - 1] == x);
            }
        }
        lemma_contains_push(ok0, x0);
        lemma_contains_push(bad0, x0);
    }
}

/// A list with one more value holds what it held, and that value.
pub proof fn lemma_contains_push(s: Seq<usize>, x0: usize)
    ensures
        forall|x: usize| s.push(x0).contains(x) <==> (s.contains(x) || x == x0),
{
    assert forall|x: usize| s.push(x0).contains(x) <==> (s.contains(x) || x == x0) by {
        let t = s.push(x0);
        if t.contains(x) {
            let k = choose|k: int| 0 <= k < t.len() && t[k] == x;
            if k < s.len() {
                assert(s[k] == x);
            }
        }
        if s.contains(x) {
            let k = choose|k: int| 0 <= k < s.len() && s[k] == x;
            assert(t[k] == x);
        }
        if x == x0 {
            assert(t[s.len() as int] == x);
        }
    }
}

/// The node registry: node `id` (from 1; 0 stands for an unknown key) has
/// the key, the signature and the state at index `id - 1`.
#[derive(Debug)]
pub struct NodeConfig {
    pub keys: Vec<Vec<u8>>,
    pub signatures: Vec<Vec<u8>>,
    pub states: Vec<NodeState>,
}

impl NodeConfig {
    /// The number of registered nodes, which is the highest id.
    pub open spec fn spec_num_nodes(&self) -> nat {
        self.states@.len()
    }

    /// The key of node `id`.
    pub open spec fn spec_key(&self, id: int) -> Seq<u8> {
        self.keys@[id - 1]@
    }

    /// The signature of node `id`.
    pub open spec fn spec_signature(&self, id: int) -> Seq<u8> {
        self.signatures@[id - 1]@
    }

    /// The state of node `id`.
    pub open spec fn spec_state(&self, id: int) -> NodeState {
        self.states@[id - 1]
    }

    /// Whether `id` is the id of a registered node.
    pub open spec fn valid_id(&self, id: usize) -> bool {
        1 <= id <= self.spec_num_nodes()
    }

    /// Every node has a key, a signature and a state, and no two nodes
    /// share a key.
    pub open spec fn wf(&self) -> bool {
        &&& self.keys@.len() == self.states@.len()
        &&& self.signatures@.len() == self.states@.len()
        &&& forall|i: int, j: int|
            0 <= i < j < self.keys@.len() ==> #[trigger] self.keys@[i]@ != #[trigger] self.keys@[j]@
    }

    /// Whether a node has `key`.
    pub open spec fn knows(&self, key: Seq<u8>) -> bool {
        exists|i: int| 0 <= i < self.keys@.len() && #[trigger] self.keys@[i]@ == key
    }

    /// The id of the node with `key`, or 0 where no node has it.
    pub open spec fn spec_node_id(&self, key: Seq<u8>) -> usize {
        if self.knows(key) {
            ((choose|i: int| 0 <= i < self.keys@.len() && #[trigger] self.keys@[i]@ == key) + 1) as usize
        } else {
            0
        }
    }

    /// A registry without nodes.
    pub fn new() -> (r: NodeConfig)
        ensures
            r.wf(),
            r.spec_num_nodes() == 0,
    {
        NodeConfig { keys: Vec::new(), signatures: Vec::new(), states: Vec::new() }
    }

    /// The number of registered nodes.
    pub fn num_nodes(&self) -> (r: usize)
        ensures
            r == self.spec_num_nodes(),
    {
        self.states.len()
    }

    /// The id of the node with `key`, or 0 where no node has it.
    pub fn get_node_id(&self, key: &Vec<u8>) -> (r: usize)
        requires
            self.wf(),
        ensures
            r == self.spec_node_id(key@),
            r == 0 <==> !self.knows(key@),
            r != 0 ==> self.valid_id(r) && self.spec_key(r as int) == key@,
    {
        let mut i: usize = 0;
        while i < self.keys.len()
            invariant
                i <= self.keys.len(),
                self.wf(),
                forall|j: int| 0 <= j < i ==> self.keys@[j]@ != key@,
            decreases self.keys.len() - i,
        {
            if bytes_eq(&self.keys[i], key) {
                proof {
                    assert(self.keys@[i as int]@ == key@);
                    assert(self.knows(key@));
                    let c = choose|c: int| 0 <= c < self.keys@.len() && #[trigger] self.keys@[c]@ == key@;
                    if c < i {
                        assert(self.keys@[c]@ != self.keys@[i as int]@);
                    } else if i < c {
                        assert(self.keys@[i as int]@ != self.keys@[c]@);
                    }
                }
                return i + 1;
            }
            i = i + 1;
        }
        0
    }

    /// Registers a node in state `Inactive` and returns its id; `None`, and
    /// no change, where a node has `key` already.
    pub fn add_node(&mut self, key: Vec<u8>, signature: Vec<u8>) -> (r: Option<usize>)
        requires
            old(self).wf(),
            old(self).spec_num_nodes() < usize::MAX,
        ensures
            final(self).wf(),
            r is None <==> old(self).knows(key@),
            r is None ==> *final(self) == *old(self),
            r is Some ==> {
                &&& r.unwrap() == old(self).spec_num_nodes() + 1
                &&& final(self).keys@ == old(self).keys@.push(key)
                &&& final(self).signatures@ == old(self).signatures@.push(signature)
                &&& final(self).states@ == old(self).states@.push(NodeState::Inactive)
            },
    {
        if self.get_node_id(&key) != 0 {
            return None;
        }
        self.keys.push(key);
        self.signatures.push(signature);
        self.states.push(NodeState::Inactive);
        Some(self.states.len())
    }

    /// The state of node `node_id`.
    pub fn get_node_state(&self, node_id: usize) -> (r: NodeState)
        requires
            self.valid_id(node_id),
        ensures
            r == self.spec_state(node_id as int),
    {
        self.states[node_id - 1]
    }

    /// Sets the state of node `node_id`.
    pub fn set_node_state(&mut self, node_id: usize, state: NodeState)
        requires
            old(self).valid_id(node_id),
        ensures
            final(self).states@ == old(self).states@.update(node_id - 1, state),
            final(self).keys == old(self).keys,
            final(self).signatures == old(self).signatures,
    {
        self.states.set(node_id - 1, state);
    }

    /// The signature of node `node_id`.
    pub fn get_node_signature(&self, node_id: usize) -> (r: Vec<u8>)
        requires
            self.wf(),
            self.valid_id(node_id),
        ensures
            r@ == self.spec_signature(node_id as int),
    {
        bytes_copy(&self.signatures[node_id - 1])
    }

    /// The key of node `node_id`.
    pub fn get_node_id_to_bls(&self, node_id: usize) -> (r: Vec<u8>)
        requires
            self.wf(),
            self.valid_id(node_id),
        ensures
            r@ == self.spec_key(node_id as int),
    {
        bytes_copy(&self.keys[node_id - 1])
    }

    /// The ids of the nodes that the entries of a response name, entry by
    /// entry.
    pub open spec fn spec_status_ids(&self, statuses: Seq<NodeStatus>) -> Seq<usize> {
        Seq::new(statuses.len(), |i: int| self.spec_node_id(statuses[i].bls_key@))
    }

    /// The statuses of a response, entry by entry.
    pub open spec fn spec_status_codes(statuses: Seq<NodeStatus>) -> Seq<u32> {
        Seq::new(statuses.len(), |i: int| statuses[i].status)
    }

    /// Parts the requested nodes by the response: first those without a
    /// reported failure, then those with one, each in the order of the
    /// request. Fails where the response has no entry for a requested node.
    pub fn split_node_ids_by_err(&self, node_ids: &Vec<usize>, node_status_args: &Vec<NodeStatus>) -> (r: Result<
        (Vec<usize>, Vec<usize>),
        Error,
    >)
        requires
            self.wf(),
        ensures
            r is Ok <==> forall|k: int|
                0 <= k < node_ids@.len() ==> has_entry(self.spec_status_ids(node_status_args@), #[trigger] node_ids@[k]),
            r is Err ==> r == Err::<(Vec<usize>, Vec<usize>), Error>(Error::MissingNodeStatus),
            r is Ok ==> r.unwrap().0@ == pick(
                node_ids@,
                self.spec_status_ids(node_status_args@),
                Self::spec_status_codes(node_status_args@),
                false,
            ),
            r is Ok ==> r.unwrap().1@ == pick(
                node_ids@,
                self.spec_status_ids(node_status_args@),
                Self::spec_status_codes(node_status_args@),
                true,
            ),
    {
        let ghost sids = self.spec_status_ids(node_status_args@);
        let ghost codes = Self::spec_status_codes(node_status_args@);
        let mut resolved: Vec<usize> = Vec::new();
        let mut j: usize = 0;
        while j < node_status_args.len()
            invariant
                j <= node_status_args.len(),
                self.wf(),
                resolved@ == sids.take(j as int),
                sids == self.spec_status_ids(node_status_args@),
            decreases node_status_args.len() - j,
        {
            let id = self.get_node_id(&node_status_args[j].bls_key);
            resolved.push(id);
            proof {
                assert(sids.take(j + 1) =~= sids.take(j as int).push(sids[j as int]));
            }
            j = j + 1;
        }
        proof {
            assert(sids.take(j as int) =~= sids);
        }
        let mut ok: Vec<usize> = Vec::new();
        let mut failed: Vec<usize> = Vec::new();
        let mut k: usize = 0;
        while k < node_ids.len()
            invariant
                k <= node_ids.len(),
                resolved@ == sids,
                sids == self.spec_status_ids(node_status_args@),
                sids.len() == node_status_args@.len(),
                codes == Self::spec_status_codes(node_status_args@),
                ok@ == pick(node_ids@.take(k as int), sids, codes, false),
                failed@ == pick(node_ids@.take(k as int), sids, codes, true),
                forall|m: int| 0 <= m < k ==> has_entry(sids, #[trigger] node_ids@[m]),
            decreases node_ids.len() - k,
        {
            let id = node_ids[k];
            let mut found = false;
            let mut bad = false;
            let mut i: usize = 0;
            while i < resolved.len()
                invariant
                    i <= resolved.len(),
                    resolved@ == sids,
                    sids.len() == node_status_args@.len(),
                    codes == Self::spec_status_codes(node_status_args@),
                    found == sids.take(i as int).contains(id),
                    bad == has_failure(sids.take(i as int), codes, id),
                decreases resolved.len() - i,
            {
                proof {
                    let p = sids.take(i as int);
                    let q = sids.take(i + 1);
                    assert(q =~= p.push(sids[i as int]));
                    lemma_contains_push(p, sids[i as int]);
                    if has_failure(p, codes, id) {
                        let w = choose|w: int| 0 <= w < p.len() && w < codes.len() && p[w] == id && codes[w] != 0;
                        assert(q[w] == id);
                    }
                    if has_failure(q, codes, id) {
                        let w = choose|w: int| 0 <= w < q.len() && w < codes.len() && q[w] == id && codes[w] != 0;
                        if w < i {
                            assert(p[w] == id);
                        }
                    }
                    if sids[i as int] == id && codes[i as int] != 0 {
                        assert(q[i as int] == id);
                    }
                }
                if resolved[i] == id {
                    found = true;
                    if node_status_args[i].status != 0 {
                        bad = true;
                    }
                }
                i = i + 1;
            }
            proof {
                assert(sids.take(i as int) =~= sids);
                assert(node_ids@.take(k + 1).drop_last() =~= node_ids@.take(k as int));
            }
            if !found {
                proof {
                    assert(!has_entry(sids, node_ids@[k as int]));
                }
                return Err(Error::MissingNodeStatus);
            }
            if bad {
                failed.push(id);
            } else {
                ok.push(id);
            }
            k = k + 1;
        }
        proof {
            assert(node_ids@.take(k as int) =~= node_ids@);
        }
        Ok((ok, failed))
    }
}

} // verus!
