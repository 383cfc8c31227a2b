use vstd::prelude::*;
use crate::errors::Error;
use crate::fund_type::{AgeGate, Conversion, FundDescription, FundType, Target};
use crate::node_config::NodeState;

verus! {

/// One step of a flow: the begin of a flow, or the confirmation or the
/// rejection that ends it. Each step takes nodes from one state to the next
/// and stake from one phase to the next.
#[derive(Clone, Copy, Debug, PartialEq, Eq, Structural)]
pub enum Phase {
    StakeBegin,
    StakeOk,
    /// With `keep_failed` the node and its stake are marked as failed and
    /// wait to be claimed; without, both go back to where they were.
    StakeFail { keep_failed: bool },
    UnStakeBegin { now: u64 },
    UnStakeOk { now: u64 },
    UnStakeFail,
    /// Only for nodes that began their unbond period more than `delay`
    /// blocks before `now`.
    UnBondBegin { now: u64, delay: u64 },
    UnBondOk,
    UnBondFail,
    ClaimOk,
}

impl Phase {
    /// The state that this step takes a node in state `s` to; `None` where
    /// the step does not apply to a node in state `s`.
    pub open spec fn spec_next(self, s: NodeState) -> Option<NodeState> {
        match (self, s) {
            (Phase::StakeBegin, NodeState::Inactive) => Some(NodeState::PendingActivation),
            (Phase::StakeOk, NodeState::PendingActivation) => Some(NodeState::Active),
            (Phase::StakeFail { keep_failed }, NodeState::PendingActivation) => Some(
                if keep_failed {
                    NodeState::ActivationFailed
                } else {
                    NodeState::Inactive
                },
            ),
            (Phase::UnStakeBegin { now }, NodeState::Active) => Some(NodeState::PendingDeactivation),
            (Phase::UnStakeOk { now }, NodeState::PendingDeactivation) => Some(
                NodeState::UnBondPeriod { started: now },
            ),
            (Phase::UnStakeFail, NodeState::PendingDeactivation) => Some(NodeState::Active),
            (Phase::UnBondBegin { now, delay }, NodeState::UnBondPeriod { started }) => if now > started + delay {
                Some(NodeState::PendingUnBond { unbond_started: started })
            } else {
                None
            },
            (Phase::UnBondOk, NodeState::PendingUnBond { unbond_started }) => Some(NodeState::Inactive),
            (Phase::UnBondFail, NodeState::PendingUnBond { unbond_started }) => Some(
                NodeState::UnBondPeriod { started: unbond_started },
            ),
            (Phase::ClaimOk, NodeState::ActivationFailed) => Some(NodeState::Inactive),
            _ => None,
        }
    }

    /// The state that this step takes a node in state `s` to; `None` where
    /// the step does not apply to a node in state `s`.
    pub fn next(&self, s: NodeState) -> (r: Option<NodeState>)
        ensures
            r == self.spec_next(s),
    {
        match (*self, s) {
            (Phase::StakeBegin, NodeState::Inactive) => Some(NodeState::PendingActivation),
            (Phase::StakeOk, NodeState::PendingActivation) => Some(NodeState::Active),
            (Phase::StakeFail { keep_failed }, NodeState::PendingActivation) => {
                if keep_failed {
                    Some(NodeState::ActivationFailed)
                } else {
                    Some(NodeState::Inactive)
                }
            },
            (Phase::UnStakeBegin { now: _ }, NodeState::Active) => Some(NodeState::PendingDeactivation),
            (Phase::UnStakeOk { now }, NodeState::PendingDeactivation) => Some(
                NodeState::UnBondPeriod { started: now },
            ),
            (Phase::UnStakeFail, NodeState::PendingDeactivation) => Some(NodeState::Active),
            (Phase::UnBondBegin { now, delay }, NodeState::UnBondPeriod { started }) => {
                let gate = AgeGate { now, delay };
                if gate.passes(started) {
                    Some(NodeState::PendingUnBond { unbond_started: started })
                } else {
                    None
                }
            },
            (Phase::UnBondOk, NodeState::PendingUnBond { unbond_started: _ }) => Some(NodeState::Inactive),
            (Phase::UnBondFail, NodeState::PendingUnBond { unbond_started }) => Some(
                NodeState::UnBondPeriod { started: unbond_started },
            ),
            (Phase::ClaimOk, NodeState::ActivationFailed) => Some(NodeState::Inactive),
            _ => None,
        }
    }

    /// Whether this step begins a flow.
    pub open spec fn spec_is_begin(self) -> bool {
        self is StakeBegin || self is UnStakeBegin || self is UnBondBegin
    }

    /// The phase that this step takes stake out of.
    pub open spec fn spec_source(self) -> FundType {
        match self {
            Phase::StakeBegin => FundType::Waiting,
            Phase::StakeOk => FundType::PendingActivation,
            Phase::StakeFail { .. } => FundType::PendingActivation,
            Phase::UnStakeBegin { .. } => FundType::Active,
            Phase::UnStakeOk { .. } => FundType::PendingDeactivation,
            Phase::UnStakeFail => FundType::PendingDeactivation,
            Phase::UnBondBegin { .. } => FundType::UnStaked,
            Phase::UnBondOk => FundType::PendingUnBond,
            Phase::UnBondFail => FundType::PendingUnBond,
            Phase::ClaimOk => FundType::ActivationFailed,
        }
    }

    /// The phase that this step takes stake out of.
    pub fn source(&self) -> (r: FundType)
        ensures
            r == self.spec_source(),
    {
        match self {
            Phase::StakeBegin => FundType::Waiting,
            Phase::StakeOk => FundType::PendingActivation,
            Phase::StakeFail { .. } => FundType::PendingActivation,
            Phase::UnStakeBegin { .. } => FundType::Active,
            Phase::UnStakeOk { .. } => FundType::PendingDeactivation,
            Phase::UnStakeFail => FundType::PendingDeactivation,
            Phase::UnBondBegin { .. } => FundType::UnStaked,
            Phase::UnBondOk => FundType::PendingUnBond,
            Phase::UnBondFail => FundType::PendingUnBond,
            Phase::ClaimOk => FundType::ActivationFailed,
        }
    }

    /// Which buckets of the source phase take part in this step, and what
    /// their stake becomes.
    pub open spec fn spec_rule(self) -> Conversion {
        match self {
            Phase::StakeBegin => Conversion {
                gate: None,
                target: Target::Fixed(FundDescription::PendingActivation),
            },
            Phase::StakeOk => Conversion { gate: None, target: Target::Fixed(FundDescription::Active) },
            Phase::StakeFail { keep_failed } => Conversion {
                gate: None,
                target: Target::Fixed(
                    if keep_failed {
                        FundDescription::ActivationFailed
                    } else {
                        FundDescription::Waiting
                    },
                ),
            },
            Phase::UnStakeBegin { now } => Conversion {
                gate: None,
                target: Target::Fixed(FundDescription::PendingDeactivation { created: now }),
            },
            Phase::UnStakeOk { .. } => Conversion { gate: None, target: Target::SameTag(FundType::UnStaked) },
            Phase::UnStakeFail => Conversion { gate: None, target: Target::Fixed(FundDescription::Active) },
            Phase::UnBondBegin { now, delay } => Conversion {
                gate: Some(AgeGate { now, delay }),
                target: Target::SameTag(FundType::PendingUnBond),
            },
            Phase::UnBondOk => Conversion { gate: None, target: Target::Fixed(FundDescription::WithdrawOnly) },
            Phase::UnBondFail => Conversion { gate: None, target: Target::SameTag(FundType::UnStaked) },
            Phase::ClaimOk => Conversion { gate: None, target: Target::Fixed(FundDescription::WithdrawOnly) },
        }
    }

    /// Which buckets of the source phase take part in this step, and what
    /// their stake becomes.
    pub fn rule(&self) -> (r: Conversion)
        ensures
            r == self.spec_rule(),
    {
        match *self {
            Phase::StakeBegin => Conversion {
                gate: None,
                target: Target::Fixed(FundDescription::PendingActivation),
            },
            Phase::StakeOk => Conversion { gate: None, target: Target::Fixed(FundDescription::Active) },
            Phase::StakeFail { keep_failed } => {
                if keep_failed {
                    Conversion { gate: None, target: Target::Fixed(FundDescription::ActivationFailed) }
                } else {
                    Conversion { gate: None, target: Target::Fixed(FundDescription::Waiting) }
                }
            },
            Phase::UnStakeBegin { now } => Conversion {
                gate: None,
                target: Target::Fixed(FundDescription::PendingDeactivation { created: now }),
            },
            Phase::UnStakeOk { now: _ } => Conversion { gate: None, target: Target::SameTag(FundType::UnStaked) },
            Phase::UnStakeFail => Conversion { gate: None, target: Target::Fixed(FundDescription::Active) },
            Phase::UnBondBegin { now, delay } => Conversion {
                gate: Some(AgeGate { now, delay }),
                target: Target::SameTag(FundType::PendingUnBond),
            },
            Phase::UnBondOk => Conversion { gate: None, target: Target::Fixed(FundDescription::WithdrawOnly) },
            Phase::UnBondFail => Conversion { gate: None, target: Target::SameTag(FundType::UnStaked) },
            Phase::ClaimOk => Conversion { gate: None, target: Target::Fixed(FundDescription::WithdrawOnly) },
        }
    }

    /// The error for a node to which this step does not apply.
    pub open spec fn spec_state_error(self) -> Error {
        match self {
            Phase::StakeBegin => Error::NodeNotInactive,
            Phase::UnStakeBegin { .. } => Error::NodeNotActive,
            Phase::UnBondBegin { .. } => Error::NodeCannotBeUnbonded,
            _ => Error::NodeNotPending,
        }
    }

    /// The error for a node to which this step does not apply.
    pub fn state_error(&self) -> (r: Error)
        ensures
            r == self.spec_state_error(),
    {
        match self {
            Phase::StakeBegin => Error::NodeNotInactive,
            Phase::UnStakeBegin { .. } => Error::NodeNotActive,
            Phase::UnBondBegin { .. } => Error::NodeCannotBeUnbonded,
            _ => Error::NodeNotPending,
        }
    }

    /// The text of the failure event for nodes that the authority rejected
    /// one by one.
    pub open spec fn spec_partial_failure_message(self) -> Seq<char> {
        match self {
            Phase::StakeFail { .. } => "staking failed for some nodes"@,
            Phase::UnStakeFail => "unstaking failed for some nodes"@,
            Phase::UnBondFail => "unbonding failed for some nodes"@,
            _ => ""@,
        }
    }

    /// The text of the failure event for nodes that the authority rejected
    /// one by one.
    pub fn partial_failure_message(&self) -> (r: &'static str)
        ensures
            r@ == self.spec_partial_failure_message(),
    {
        match self {
            Phase::StakeFail { .. } => "staking failed for some nodes",
            Phase::UnStakeFail => "unstaking failed for some nodes",
            Phase::UnBondFail => "unbonding failed for some nodes",
            _ => "",
        }
    }

    /// The error for a ledger that holds less in the source phase than this
    /// step has to move.
    pub open spec fn spec_funds_error(self) -> Error {
        match self {
            Phase::StakeBegin => Error::NotEnoughFunds,
            Phase::UnStakeBegin { .. } => Error::NotEnoughActiveStake,
            Phase::UnBondBegin { .. } => Error::NotEnoughUnbondStake,
            _ => Error::NotEnoughPendingStake,
        }
    }

    /// The error for a ledger that holds less in the source phase than this
    /// step has to move.
    pub fn funds_error(&self) -> (r: Error)
        ensures
            r == self.spec_funds_error(),
    {
        match self {
            Phase::StakeBegin => Error::NotEnoughFunds,
            Phase::UnStakeBegin { .. } => Error::NotEnoughActiveStake,
            Phase::UnBondBegin { .. } => Error::NotEnoughUnbondStake,
            _ => Error::NotEnoughPendingStake,
        }
    }
}

/// No step applies twice in a row: the state that a step leaves a node in
/// is none that the same step starts from.
pub proof fn lemma_step_once(phase: Phase, s: NodeState)
    requires
        phase.spec_next(s) is Some,
    ensures
        phase.spec_next(phase.spec_next(s).unwrap()) is None,
{
}

/// A node with an outstanding request is no target of a new flow: no step
/// that begins a flow applies to a pending node.
pub proof fn lemma_pending_not_selectable(phase: Phase, s: NodeState)
    requires
        s.spec_is_pending(),
        phase.spec_is_begin(),
    ensures
        phase.spec_next(s) is None,
{
}

/// Every step that begins a flow leaves its nodes pending, and every step
/// that ends one takes pending nodes only.
pub proof fn lemma_pending_in_between(phase: Phase, s: NodeState)
    requires
        phase.spec_next(s) is Some,
    ensures
        phase.spec_is_begin() ==> phase.spec_next(s).unwrap().spec_is_pending(),
        !phase.spec_is_begin() && !(phase is ClaimOk) ==> s.spec_is_pending(),
        !phase.spec_is_begin() ==> !phase.spec_next(s).unwrap().spec_is_pending(),
{
}

} // verus!
