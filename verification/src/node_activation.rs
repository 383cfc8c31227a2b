use vstd::prelude::*;
use crate::delegation::{
    begun, check_owner_gate, due_desc, first_asc, gated_begin, key_ids, lemma_covered, owner_gate, pause_gate,
    request_for, resolved, stake_limit, stepped, target_ok, AsyncCallResult, AuctionRequest, Caller, Delegation,
    Outcome, RequestKind,
};
use crate::errors::Error;
use crate::fund_module::lemma_eligible_sum_all;
use crate::fund_type::FundType;
use crate::node_config::NodeState;
use crate::phase::Phase;

verus! {

/// The step that begins the unbonding of the nodes of `pool` at block `now`.
pub open spec fn unbond_begin(pool: &Delegation, now: u64) -> Phase {
    Phase::UnBondBegin { now, delay: pool.settings.n_blocks_before_unbond }
}

/// The step that a rejected stake request takes in `pool`.
pub open spec fn stake_fail(pool: &Delegation) -> Phase {
    Phase::StakeFail { keep_failed: pool.settings.keep_failed_activation }
}

/// The request that deactivates nodes, with or without unstaking their
/// tokens.
pub open spec fn unstake_kind(unstake_tokens: bool) -> RequestKind {
    if unstake_tokens {
        RequestKind::UnStake
    } else {
        RequestKind::UnStakeNodes
    }
}

/// The error that bars the unbonding of `n` named nodes: that of the
/// owner's gate, or, past it, that of an empty list.
pub open spec fn unbond_gate(caller: Caller, pool: &Delegation, n: nat) -> Option<Error> {
    if owner_gate(caller, pool.settings, false, true) is Some {
        owner_gate(caller, pool.settings, false, true)
    } else if n == 0 {
        Some(Error::NoKeysProvided)
    } else {
        None
    }
}

/// The error that bars `caller` from activating all available nodes: the
/// command is the owner's, and everyone's where automatic activation is
/// enabled; it is refused while a checkpoint is reset.
pub open spec fn activation_gate(caller: Caller, pool: &Delegation) -> Option<Error> {
    if caller != Caller::Owner && !pool.settings.auto_activation_enabled {
        Some(Error::NotAllowedToActivate)
    } else {
        pause_gate(pool.settings)
    }
}

/// Whether the `i`-th node is registered and active.
pub open spec fn active_at(states: Seq<NodeState>, ids: Seq<usize>, i: int) -> bool {
    1 <= ids[i] <= states.len() && states[ids[i] - 1] is Active
}

/// Whether the `i`-th node is the first that is not registered or not
/// active, and `e` the error for it.
pub open spec fn first_not_active(states: Seq<NodeState>, ids: Seq<usize>, i: int, e: Error) -> bool {
    &&& 0 <= i < ids.len()
    &&& !active_at(states, ids, i)
    &&& forall|j: int| 0 <= j < i ==> active_at(states, ids, j)
    &&& e == if ids[i] == 0 {
        Error::UnknownNode
    } else {
        Error::NodeNotActive
    }
}

/// The commands of the owner and the callbacks of the staking authority
/// that take the nodes of a pool, and their stake, through activation,
/// deactivation and unbonding.
pub trait ContractStakeModule: Sized {
    /// The pool that the commands work on.
    spec fn pool(&self) -> Delegation;

    /// The owner activates the nodes with the given keys: each has to be
    /// registered and inactive, and the pool has to hold their stake as
    /// waiting stake.
    fn stake_nodes(&mut self, caller: Caller, bls_keys: &Vec<Vec<u8>>) -> (r: Result<Option<AuctionRequest>, Error>)
        requires
            old(self).pool().wf(),
        ensures
            final(self).pool().wf(),
            gated_begin(
                &old(self).pool(),
                &final(self).pool(),
                owner_gate(caller, old(self).pool().settings, true, true),
                key_ids(&old(self).pool().node_config, bls_keys@),
                Phase::StakeBegin,
                RequestKind::Stake,
                r,
            ),
    ;

    /// Activates as many inactive nodes, from the lowest id up, as the
    /// waiting stake of the pool covers. Open to the owner, and to everyone
    /// where automatic activation is enabled.
    fn stake_all_available_endpoint(&mut self, caller: Caller) -> (r: Result<Option<AuctionRequest>, Error>)
        requires
            old(self).pool().wf(),
        ensures
            final(self).pool().wf(),
            gated_begin(
                &old(self).pool(),
                &final(self).pool(),
                activation_gate(caller, &old(self).pool()),
                first_asc(
                    old(self).pool().spec_states(),
                    Phase::StakeBegin,
                    old(self).pool().spec_states().len(),
                    stake_limit(&old(self).pool()),
                ),
                Phase::StakeBegin,
                RequestKind::Stake,
                r,
            ),
            activation_gate(caller, &old(self).pool()) is None ==> r is Ok,
    ;

    /// Activates as many inactive nodes, from the lowest id up, as the
    /// waiting stake of the pool covers. It never fails.
    fn stake_all_available(&mut self) -> (r: Result<Option<AuctionRequest>, Error>)
        requires
            old(self).pool().wf(),
        ensures
            final(self).pool().wf(),
            r is Ok,
            begun(
                &old(self).pool(),
                &final(self).pool(),
                first_asc(
                    old(self).pool().spec_states(),
                    Phase::StakeBegin,
                    old(self).pool().spec_states().len(),
                    stake_limit(&old(self).pool()),
                ),
                Phase::StakeBegin,
                RequestKind::Stake,
                r,
            ),
    ;

    /// Marks the nodes as pending activation, sets their stake aside and
    /// returns the stake request.
    fn perform_stake_nodes(&mut self, node_ids: Vec<usize>) -> (r: Result<Option<AuctionRequest>, Error>)
        requires
            old(self).pool().wf(),
        ensures
            final(self).pool().wf(),
            begun(&old(self).pool(), &final(self).pool(), node_ids@, Phase::StakeBegin, RequestKind::Stake, r),
    ;

    /// Settles the response to a stake request.
    fn auction_stake_callback(&mut self, node_ids: Vec<usize>, call_result: AsyncCallResult) -> (r: Result<
        Outcome,
        Error,
    >)
        requires
            old(self).pool().wf(),
        ensures
            final(self).pool().wf(),
            resolved(
                &old(self).pool(),
                &final(self).pool(),
                node_ids@,
                call_result,
                Phase::StakeOk,
                stake_fail(&old(self).pool()),
                r,
            ),
    ;

    /// The nodes are active now, and so is their stake.
    fn auction_stake_callback_ok(&mut self, node_ids: &Vec<usize>) -> (r: Result<bool, Error>)
        requires
            old(self).pool().wf(),
        ensures
            final(self).pool().wf(),
            stepped(&old(self).pool(), &final(self).pool(), node_ids@, Phase::StakeOk, r),
    ;

    /// The nodes were not activated: they and their stake go back, or are
    /// marked as failed where the pool keeps failed activations.
    fn auction_stake_callback_fail(&mut self, node_ids: &Vec<usize>) -> (r: Result<bool, Error>)
        requires
            old(self).pool().wf(),
        ensures
            final(self).pool().wf(),
            stepped(&old(self).pool(), &final(self).pool(), node_ids@, stake_fail(&old(self).pool()), r),
    ;

    /// The owner deactivates the nodes with the given keys, without
    /// unstaking tokens.
    fn unstake_nodes_endpoint(&mut self, caller: Caller, bls_keys: &Vec<Vec<u8>>, current_bl_nonce: u64) -> (r: Result<
        Option<AuctionRequest>,
        Error,
    >)
        requires
            old(self).pool().wf(),
        ensures
            final(self).pool().wf(),
            gated_begin(
                &old(self).pool(),
                &final(self).pool(),
                owner_gate(caller, old(self).pool().settings, false, true),
                key_ids(&old(self).pool().node_config, bls_keys@),
                Phase::UnStakeBegin { now: current_bl_nonce },
                RequestKind::UnStakeNodes,
                r,
            ),
    ;

    /// The owner deactivates the nodes with the given keys and unstakes
    /// their tokens.
    fn unstake_nodes_and_tokens_endpoint(
        &mut self,
        caller: Caller,
        bls_keys: &Vec<Vec<u8>>,
        current_bl_nonce: u64,
    ) -> (r: Result<Option<AuctionRequest>, Error>)
        requires
            old(self).pool().wf(),
        ensures
            final(self).pool().wf(),
            gated_begin(
                &old(self).pool(),
                &final(self).pool(),
                owner_gate(caller, old(self).pool().settings, false, true),
                key_ids(&old(self).pool().node_config, bls_keys@),
                Phase::UnStakeBegin { now: current_bl_nonce },
                RequestKind::UnStake,
                r,
            ),
    ;

    /// The owner deactivates the nodes with the given keys: each has to be
    /// registered and active.
    fn unstake_nodes(&mut self, caller: Caller, unstake_tokens: bool, bls_keys: &Vec<Vec<u8>>, current_bl_nonce: u64) -> (r:
        Result<Option<AuctionRequest>, Error>)
        requires
            old(self).pool().wf(),
        ensures
            final(self).pool().wf(),
            gated_begin(
                &old(self).pool(),
                &final(self).pool(),
                owner_gate(caller, old(self).pool().settings, false, true),
                key_ids(&old(self).pool().node_config, bls_keys@),
                Phase::UnStakeBegin { now: current_bl_nonce },
                unstake_kind(unstake_tokens),
                r,
            ),
    ;

    /// Marks the nodes as pending deactivation, sets their stake aside
    /// under the current block and returns the unstake request.
    fn perform_unstake_nodes(&mut self, unstake_tokens: bool, node_ids: Vec<usize>, current_bl_nonce: u64) -> (r: Result<
        Option<AuctionRequest>,
        Error,
    >)
        requires
            old(self).pool().wf(),
        ensures
            final(self).pool().wf(),
            begun(
                &old(self).pool(),
                &final(self).pool(),
                node_ids@,
                Phase::UnStakeBegin { now: current_bl_nonce },
                unstake_kind(unstake_tokens),
                r,
            ),
    ;

    /// Settles the response to an unstake request at block
    /// `current_bl_nonce`.
    fn auction_unstake_callback(&mut self, node_ids: Vec<usize>, call_result: AsyncCallResult, current_bl_nonce: u64) -> (r:
        Result<Outcome, Error>)
        requires
            old(self).pool().wf(),
        ensures
            final(self).pool().wf(),
            resolved(
                &old(self).pool(),
                &final(self).pool(),
                node_ids@,
                call_result,
                Phase::UnStakeOk { now: current_bl_nonce },
                Phase::UnStakeFail,
                r,
            ),
    ;

    /// The nodes begin their unbond period at `current_bl_nonce`, and their
    /// stake is unstaked.
    fn auction_unstake_callback_ok(&mut self, node_ids: &Vec<usize>, current_bl_nonce: u64) -> (r: Result<bool, Error>)
        requires
            old(self).pool().wf(),
        ensures
            final(self).pool().wf(),
            stepped(
                &old(self).pool(),
                &final(self).pool(),
                node_ids@,
                Phase::UnStakeOk { now: current_bl_nonce },
                r,
            ),
    ;

    /// The nodes were not deactivated: they and their stake are active
    /// again.
    fn auction_unstake_callback_fail(&mut self, node_ids: &Vec<usize>) -> (r: Result<bool, Error>)
        requires
            old(self).pool().wf(),
        ensures
            final(self).pool().wf(),
            stepped(&old(self).pool(), &final(self).pool(), node_ids@, Phase::UnStakeFail, r),
    ;

    /// The owner unbonds the nodes with the given keys.
    fn unbond_specific_nodes_endpoint(&mut self, caller: Caller, bls_keys: &Vec<Vec<u8>>, current_bl_nonce: u64) -> (r:
        Result<Option<AuctionRequest>, Error>)
        requires
            old(self).pool().wf(),
        ensures
            final(self).pool().wf(),
            gated_begin(
                &old(self).pool(),
                &final(self).pool(),
                unbond_gate(caller, &old(self).pool(), bls_keys@.len()),
                key_ids(&old(self).pool().node_config, bls_keys@),
                unbond_begin(&old(self).pool(), current_bl_nonce),
                RequestKind::UnBondNodes,
                r,
            ),
    ;

    /// The owner unbonds the nodes with the given keys: there has to be
    /// one, and each has to be registered and far enough into its unbond
    /// period.
    fn unbond_specific_nodes(&mut self, caller: Caller, bls_keys: &Vec<Vec<u8>>, current_bl_nonce: u64) -> (r: Result<
        Option<AuctionRequest>,
        Error,
    >)
        requires
            old(self).pool().wf(),
        ensures
            final(self).pool().wf(),
            gated_begin(
                &old(self).pool(),
                &final(self).pool(),
                unbond_gate(caller, &old(self).pool(), bls_keys@.len()),
                key_ids(&old(self).pool().node_config, bls_keys@),
                unbond_begin(&old(self).pool(), current_bl_nonce),
                RequestKind::UnBondNodes,
                r,
            ),
    ;

    /// The owner unbonds every node that is far enough into its unbond
    /// period, from the highest id down.
    fn unbond_all_possible_nodes(&mut self, caller: Caller, current_bl_nonce: u64) -> (r: Result<
        Option<AuctionRequest>,
        Error,
    >)
        requires
            old(self).pool().wf(),
        ensures
            final(self).pool().wf(),
            gated_begin(
                &old(self).pool(),
                &final(self).pool(),
                owner_gate(caller, old(self).pool().settings, false, true),
                due_desc(
                    old(self).pool().spec_states(),
                    unbond_begin(&old(self).pool(), current_bl_nonce),
                    old(self).pool().spec_states().len(),
                ),
                unbond_begin(&old(self).pool(), current_bl_nonce),
                RequestKind::UnBondNodes,
                r,
            ),
    ;

    /// Unbonds the nodes with the given keys, whoever calls, unless a
    /// checkpoint is reset: each has to be registered and far enough into
    /// its unbond period.
    fn unbond_nodes(&mut self, bls_keys: &Vec<Vec<u8>>, current_bl_nonce: u64) -> (r: Result<
        Option<AuctionRequest>,
        Error,
    >)
        requires
            old(self).pool().wf(),
        ensures
            final(self).pool().wf(),
            gated_begin(
                &old(self).pool(),
                &final(self).pool(),
                pause_gate(old(self).pool().settings),
                key_ids(&old(self).pool().node_config, bls_keys@),
                unbond_begin(&old(self).pool(), current_bl_nonce),
                RequestKind::UnBondNodes,
                r,
            ),
    ;

    /// Unbonds every node that is far enough into its unbond period, from
    /// the highest id down, whoever calls, unless a checkpoint is reset.
    fn unbond_all_available(&mut self, current_bl_nonce: u64) -> (r: Result<Option<AuctionRequest>, Error>)
        requires
            old(self).pool().wf(),
        ensures
            final(self).pool().wf(),
            gated_begin(
                &old(self).pool(),
                &final(self).pool(),
                pause_gate(old(self).pool().settings),
                due_desc(
                    old(self).pool().spec_states(),
                    unbond_begin(&old(self).pool(), current_bl_nonce),
                    old(self).pool().spec_states().len(),
                ),
                unbond_begin(&old(self).pool(), current_bl_nonce),
                RequestKind::UnBondNodes,
                r,
            ),
    ;

    /// Marks node `node_id` as pending unbond where it is far enough into
    /// its unbond period, and says whether it did. The start of the period
    /// stays with the node.
    fn prepare_node_for_unbond_if_possible(&mut self, node_id: usize, current_bl_nonce: u64) -> (r: bool)
        requires
            old(self).pool().wf(),
            old(self).pool().node_config.valid_id(node_id),
        ensures
            final(self).pool().wf(),
            final(self).pool().same_registry(&old(self).pool()),
            final(self).pool().spec_funds() == old(self).pool().spec_funds(),
            r == (unbond_begin(&old(self).pool(), current_bl_nonce).spec_next(
                old(self).pool().node_config.spec_state(node_id as int),
            ) is Some),
            final(self).pool().spec_states() == if r {
                old(self).pool().spec_states().update(
                    node_id - 1,
                    unbond_begin(&old(self).pool(), current_bl_nonce).spec_next(
                        old(self).pool().node_config.spec_state(node_id as int),
                    ).unwrap(),
                )
            } else {
                old(self).pool().spec_states()
            },
    ;

    /// Marks the nodes as pending unbond, sets aside their stake out of
    /// what was unstaked long enough ago, and returns the unbond request.
    fn perform_unbond(&mut self, node_ids: Vec<usize>, current_bl_nonce: u64) -> (r: Result<
        Option<AuctionRequest>,
        Error,
    >)
        requires
            old(self).pool().wf(),
        ensures
            final(self).pool().wf(),
            begun(
                &old(self).pool(),
                &final(self).pool(),
                node_ids@,
                unbond_begin(&old(self).pool(), current_bl_nonce),
                RequestKind::UnBondNodes,
                r,
            ),
    ;

    /// Settles the response to an unbond request.
    fn auction_unbond_callback(&mut self, node_ids: Vec<usize>, call_result: AsyncCallResult) -> (r: Result<
        Outcome,
        Error,
    >)
        requires
            old(self).pool().wf(),
        ensures
            final(self).pool().wf(),
            resolved(
                &old(self).pool(),
                &final(self).pool(),
                node_ids@,
                call_result,
                Phase::UnBondOk,
                Phase::UnBondFail,
                r,
            ),
    ;

    /// The nodes are inactive now, and their stake can be withdrawn.
    fn auction_unbond_callback_ok(&mut self, node_ids: &Vec<usize>) -> (r: Result<bool, Error>)
        requires
            old(self).pool().wf(),
        ensures
            final(self).pool().wf(),
            stepped(&old(self).pool(), &final(self).pool(), node_ids@, Phase::UnBondOk, r),
    ;

    /// The nodes were not unbonded: each goes back into its unbond period
    /// with the start it had, and the stake is unstaked again. Fails, and
    /// changes nothing, where a node is not pending unbond.
    fn auction_unbond_callback_fail(&mut self, node_ids: &Vec<usize>) -> (r: Result<bool, Error>)
        requires
            old(self).pool().wf(),
        ensures
            final(self).pool().wf(),
            stepped(&old(self).pool(), &final(self).pool(), node_ids@, Phase::UnBondFail, r),
    ;

    /// The owner asks the authority for the stake that it holds beyond what
    /// the active nodes need. Nothing changes in the pool.
    fn claim_unused_funds(&self, caller: Caller) -> (r: Result<AuctionRequest, Error>)
        requires
            self.pool().wf(),
        ensures
            match owner_gate(caller, self.pool().settings, false, true) {
                Some(e) => r matches Err(x) && x == e,
                None => r matches Ok(req) && request_for(
                    &self.pool().node_config,
                    &req,
                    RequestKind::ClaimUnused,
                    Seq::empty(),
                    0,
                ),
            },
    ;

    /// The owner asks the authority for the stake of all nodes whose
    /// activation failed, from the highest id down. Nothing changes in the
    /// pool until the authority answers.
    fn claim_failed_stake(&self, caller: Caller) -> (r: Result<Option<AuctionRequest>, Error>)
        requires
            self.pool().wf(),
        ensures
            match owner_gate(caller, self.pool().settings, false, true) {
                Some(e) => r matches Err(x) && x == e,
                None => r matches Ok(sent) && {
                    let ids = due_desc(self.pool().spec_states(), Phase::ClaimOk, self.pool().spec_states().len());
                    &&& sent is Some <==> ids.len() > 0
                    &&& sent matches Some(req) ==> request_for(
                        &self.pool().node_config,
                        &req,
                        RequestKind::Claim,
                        ids,
                        0,
                    )
                },
            },
    ;

    /// Settles the response to a claim of failed stake: on success the
    /// nodes are inactive and their stake can be withdrawn; on failure
    /// nothing changes.
    fn auction_claim_callback(&mut self, node_ids: &Vec<usize>, success: bool) -> (r: Result<bool, Error>)
        requires
            old(self).pool().wf(),
        ensures
            final(self).pool().wf(),
            if success {
                stepped(&old(self).pool(), &final(self).pool(), node_ids@, Phase::ClaimOk, r)
            } else {
                final(self).pool().same_as(&old(self).pool()) && r == Ok::<bool, Error>(false)
            },
    ;

    /// The owner asks the authority to unjail the nodes with the given
    /// keys, for the fine paid: each has to be registered and active.
    /// Nothing changes in the pool.
    fn unjail_nodes(&self, caller: Caller, bls_keys: &Vec<Vec<u8>>, fine_payment: u128) -> (r: Result<
        AuctionRequest,
        Error,
    >)
        requires
            self.pool().wf(),
        ensures
            ({
                let ids = key_ids(&self.pool().node_config, bls_keys@);
                let states = self.pool().spec_states();
                match owner_gate(caller, self.pool().settings, false, true) {
                    Some(e) => r matches Err(x) && x == e,
                    None => {
                        &&& r is Ok <==> forall|i: int| 0 <= i < ids.len() ==> active_at(states, ids, i)
                        &&& r matches Ok(req) ==> request_for(
                            &self.pool().node_config,
                            &req,
                            RequestKind::UnJail,
                            ids,
                            fine_payment,
                        )
                        &&& r matches Err(e) ==> exists|i: int| first_not_active(states, ids, i, e)
                    },
                }
            }),
    ;
}

impl ContractStakeModule for Delegation {
    open spec fn pool(&self) -> Delegation {
        *self
    }

    fn stake_nodes(&mut self, caller: Caller, bls_keys: &Vec<Vec<u8>>) -> (r: Result<Option<AuctionRequest>, Error>) {
        match check_owner_gate(caller, self.settings, true, true) {
            Some(e) => Err(e),
            None => {
                let node_ids = self.resolve_ids(bls_keys);
                self.perform_stake_nodes(node_ids)
            },
        }
    }

    fn stake_all_available_endpoint(&mut self, caller: Caller) -> (r: Result<Option<AuctionRequest>, Error>) {
        let allowed = match caller {
            Caller::Owner => true,
            Caller::Other => self.settings.auto_activation_enabled,
        };
        if !allowed {
            return Err(Error::NotAllowedToActivate);
        }
        if self.settings.global_op_in_progress {
            return Err(Error::GlobalOperationInProgress);
        }
        self.stake_all_available()
    }

    fn stake_all_available(&mut self) -> (r: Result<Option<AuctionRequest>, Error>) {
        let inactive_stake = self.fund_module.query_sum(None, Some(FundType::Waiting));
        let stake_per_node = self.settings.stake_per_node;
        let limit: u128 = if stake_per_node == 0 {
            u128::MAX
        } else {
            inactive_stake / stake_per_node
        };
        let node_ids = self.collect_first(Phase::StakeBegin, limit);
        proof {
            lemma_covered(node_ids@.len(), limit as nat, stake_per_node as nat, inactive_stake as nat);
            lemma_eligible_sum_all(self.spec_funds(), None, FundType::Waiting, Phase::StakeBegin.spec_rule());
        }
        self.perform_stake_nodes(node_ids)
    }

    fn perform_stake_nodes(&mut self, node_ids: Vec<usize>) -> (r: Result<Option<AuctionRequest>, Error>) {
        self.begin(node_ids, Phase::StakeBegin, RequestKind::Stake)
    }

    fn auction_stake_callback(&mut self, node_ids: Vec<usize>, call_result: AsyncCallResult) -> (r: Result<
        Outcome,
        Error,
    >) {
        let fail_phase = Phase::StakeFail { keep_failed: self.settings.keep_failed_activation };
        self.resolve(node_ids, call_result, Phase::StakeOk, fail_phase)
    }

    fn auction_stake_callback_ok(&mut self, node_ids: &Vec<usize>) -> (r: Result<bool, Error>) {
        self.step(node_ids, Phase::StakeOk)
    }

    fn auction_stake_callback_fail(&mut self, node_ids: &Vec<usize>) -> (r: Result<bool, Error>) {
        let fail_phase = Phase::StakeFail { keep_failed: self.settings.keep_failed_activation };
        self.step(node_ids, fail_phase)
    }

    fn unstake_nodes_endpoint(&mut self, caller: Caller, bls_keys: &Vec<Vec<u8>>, current_bl_nonce: u64) -> (r: Result<
        Option<AuctionRequest>,
        Error,
    >) {
        self.unstake_nodes(caller, false, bls_keys, current_bl_nonce)
    }

    fn unstake_nodes_and_tokens_endpoint(
        &mut self,
        caller: Caller,
        bls_keys: &Vec<Vec<u8>>,
        current_bl_nonce: u64,
    ) -> (r: Result<Option<AuctionRequest>, Error>) {
        self.unstake_nodes(caller, true, bls_keys, current_bl_nonce)
    }

    fn unstake_nodes(&mut self, caller: Caller, unstake_tokens: bool, bls_keys: &Vec<Vec<u8>>, current_bl_nonce: u64) -> (r:
        Result<Option<AuctionRequest>, Error>) {
        match check_owner_gate(caller, self.settings, false, true) {
            Some(e) => Err(e),
            None => {
                let node_ids = self.resolve_ids(bls_keys);
                self.perform_unstake_nodes(unstake_tokens, node_ids, current_bl_nonce)
            },
        }
    }

    fn perform_unstake_nodes(&mut self, unstake_tokens: bool, node_ids: Vec<usize>, current_bl_nonce: u64) -> (r: Result<
        Option<AuctionRequest>,
        Error,
    >) {
        let kind = if unstake_tokens {
            RequestKind::UnStake
        } else {
            RequestKind::UnStakeNodes
        };
        self.begin(node_ids, Phase::UnStakeBegin { now: current_bl_nonce }, kind)
    }

    fn auction_unstake_callback(&mut self, node_ids: Vec<usize>, call_result: AsyncCallResult, current_bl_nonce: u64) -> (r:
        Result<Outcome, Error>) {
        self.resolve(node_ids, call_result, Phase::UnStakeOk { now: current_bl_nonce }, Phase::UnStakeFail)
    }

    fn auction_unstake_callback_ok(&mut self, node_ids: &Vec<usize>, current_bl_nonce: u64) -> (r: Result<bool, Error>) {
        self.step(node_ids, Phase::UnStakeOk { now: current_bl_nonce })
    }

    fn auction_unstake_callback_fail(&mut self, node_ids: &Vec<usize>) -> (r: Result<bool, Error>) {
        self.step(node_ids, Phase::UnStakeFail)
    }

    fn unbond_specific_nodes_endpoint(&mut self, caller: Caller, bls_keys: &Vec<Vec<u8>>, current_bl_nonce: u64) -> (r:
        Result<Option<AuctionRequest>, Error>) {
        self.unbond_specific_nodes(caller, bls_keys, current_bl_nonce)
    }

    fn unbond_specific_nodes(&mut self, caller: Caller, bls_keys: &Vec<Vec<u8>>, current_bl_nonce: u64) -> (r: Result<
        Option<AuctionRequest>,
        Error,
    >) {
        match check_owner_gate(caller, self.settings, false, true) {
            Some(e) => Err(e),
            None => {
                if bls_keys.len() == 0 {
                    return Err(Error::NoKeysProvided);
                }
                let node_ids = self.resolve_ids(bls_keys);
                self.perform_unbond(node_ids, current_bl_nonce)
            },
        }
    }

    fn unbond_all_possible_nodes(&mut self, caller: Caller, current_bl_nonce: u64) -> (r: Result<
        Option<AuctionRequest>,
        Error,
    >) {
        match check_owner_gate(caller, self.settings, false, true) {
            Some(e) => Err(e),
            None => {
                let phase = Phase::UnBondBegin { now: current_bl_nonce, delay: self.settings.n_blocks_before_unbond };
                let node_ids = self.collect_due(phase);
                self.perform_unbond(node_ids, current_bl_nonce)
            },
        }
    }

    fn unbond_nodes(&mut self, bls_keys: &Vec<Vec<u8>>, current_bl_nonce: u64) -> (r: Result<
        Option<AuctionRequest>,
        Error,
    >) {
        if self.settings.global_op_in_progress {
            return Err(Error::GlobalOperationInProgress);
        }
        let node_ids = self.resolve_ids(bls_keys);
        self.perform_unbond(node_ids, current_bl_nonce)
    }

    fn unbond_all_available(&mut self, current_bl_nonce: u64) -> (r: Result<Option<AuctionRequest>, Error>) {
        if self.settings.global_op_in_progress {
            return Err(Error::GlobalOperationInProgress);
        }
        let phase = Phase::UnBondBegin { now: current_bl_nonce, delay: self.settings.n_blocks_before_unbond };
        let node_ids = self.collect_due(phase);
        self.perform_unbond(node_ids, current_bl_nonce)
    }

    fn prepare_node_for_unbond_if_possible(&mut self, node_id: usize, current_bl_nonce: u64) -> (r: bool) {
        let phase = Phase::UnBondBegin { now: current_bl_nonce, delay: self.settings.n_blocks_before_unbond };
        match phase.next(self.node_config.get_node_state(node_id)) {
            Some(next) => {
                self.node_config.set_node_state(node_id, next);
                true
            },
            None => false,
        }
    }

    fn perform_unbond(&mut self, node_ids: Vec<usize>, current_bl_nonce: u64) -> (r: Result<
        Option<AuctionRequest>,
        Error,
    >) {
        let phase = Phase::UnBondBegin { now: current_bl_nonce, delay: self.settings.n_blocks_before_unbond };
        self.begin(node_ids, phase, RequestKind::UnBondNodes)
    }

    fn auction_unbond_callback(&mut self, node_ids: Vec<usize>, call_result: AsyncCallResult) -> (r: Result<
        Outcome,
        Error,
    >) {
        self.resolve(node_ids, call_result, Phase::UnBondOk, Phase::UnBondFail)
    }

    fn auction_unbond_callback_ok(&mut self, node_ids: &Vec<usize>) -> (r: Result<bool, Error>) {
        self.step(node_ids, Phase::UnBondOk)
    }

    fn auction_unbond_callback_fail(&mut self, node_ids: &Vec<usize>) -> (r: Result<bool, Error>) {
        self.step(node_ids, Phase::UnBondFail)
    }

    fn claim_unused_funds(&self, caller: Caller) -> (r: Result<AuctionRequest, Error>) {
        match check_owner_gate(caller, self.settings, false, true) {
            Some(e) => Err(e),
            None => Ok(self.build_request(RequestKind::ClaimUnused, Vec::new(), 0)),
        }
    }

    fn claim_failed_stake(&self, caller: Caller) -> (r: Result<Option<AuctionRequest>, Error>) {
        match check_owner_gate(caller, self.settings, false, true) {
            Some(e) => Err(e),
            None => {
                let node_ids = self.collect_due(Phase::ClaimOk);
                if node_ids.len() == 0 {
                    return Ok(None);
                }
                proof {
                    assert forall|i: int| 0 <= i < node_ids@.len() implies self.node_config.valid_id(
                        #[trigger] node_ids@[i],
                    ) by {
                        assert(target_ok(self.spec_states(), node_ids@, Phase::ClaimOk, i));
                    }
                }
                Ok(Some(self.build_request(RequestKind::Claim, node_ids, 0)))
            },
        }
    }

    fn auction_claim_callback(&mut self, node_ids: &Vec<usize>, success: bool) -> (r: Result<bool, Error>) {
        if success {
            self.step(node_ids, Phase::ClaimOk)
        } else {
            Ok(false)
        }
    }

    fn unjail_nodes(&self, caller: Caller, bls_keys: &Vec<Vec<u8>>, fine_payment: u128) -> (r: Result<
        AuctionRequest,
        Error,
    >) {
        match check_owner_gate(caller, self.settings, false, true) {
            Some(e) => Err(e),
            None => {
                let node_ids = self.resolve_ids(bls_keys);
                let mut i: usize = 0;
                while i < node_ids.len()
                    invariant
                        i <= node_ids.len(),
                        self.wf(),
                        owner_gate(caller, self.settings, false, true) is None,
                        node_ids@ == key_ids(&self.node_config, bls_keys@),
                        forall|j: int|
                            0 <= j < node_ids@.len() ==> #[trigger] node_ids@[j] == 0 || self.node_config.valid_id(
                                node_ids@[j],
                            ),
                        forall|j: int| 0 <= j < i ==> active_at(self.spec_states(), node_ids@, j),
                    decreases node_ids.len() - i,
                {
                    let node_id = node_ids[i];
                    if node_id == 0 {
                        proof {
                            assert(first_not_active(self.spec_states(), node_ids@, i as int, Error::UnknownNode));
                        }
                        return Err(Error::UnknownNode);
                    }
                    match self.node_config.get_node_state(node_id) {
                        NodeState::Active => {},
                        _ => {
                            proof {
                                assert(first_not_active(
                                    self.spec_states(),
                                    node_ids@,
                                    i as int,
                                    Error::NodeNotActive,
                                ));
                            }
                            return Err(Error::NodeNotActive);
                        },
                    }
                    i = i + 1;
                }
                proof {
                    assert forall|j: int| 0 <= j < node_ids@.len() implies self.node_config.valid_id(
                        #[trigger] node_ids@[j],
                    ) by {
                        assert(active_at(self.spec_states(), node_ids@, j));
                    }
                }
                Ok(self.build_request(RequestKind::UnJail, node_ids, fine_payment))
            },
        }
    }
}

} // verus!
