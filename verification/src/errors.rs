use vstd::prelude::*;

verus! {

/// Why a command was rejected, or what a response of the staking authority
/// violated.
#[derive(Clone, Copy, Debug, PartialEq, Eq, Structural)]
pub enum Error {
    /// The caller is not the owner.
    OnlyOwner,
    /// The caller may not activate nodes.
    NotAllowedToActivate,
    /// Nodes cannot be staked in bootstrap mode.
    BootstrapMode,
    /// Node operations are paused while a checkpoint is reset.
    GlobalOperationInProgress,
    /// The pool holds less waiting stake than the command needs.
    NotEnoughFunds,
    /// A user offered more than the user's active stake.
    NotEnoughActiveStake,
    /// Less stake is due for unbonding than the nodes need.
    NotEnoughUnbondStake,
    /// No key was given.
    NoKeysProvided,
    /// A key belongs to no registered node.
    UnknownNode,
    /// A node to stake is not inactive.
    NodeNotInactive,
    /// A node to unstake or unjail is not active.
    NodeNotActive,
    /// A node to unbond is not in its unbond period, or not long enough.
    NodeCannotBeUnbonded,
    /// A response names a node that is not pending as the response expects.
    NodeNotPending,
    /// The ledger holds less in-flight stake than a response settles.
    NotEnoughPendingStake,
    /// A response lacks the status of a requested node.
    MissingNodeStatus,
}

impl Error {
    /// The reason in words.
    pub open spec fn spec_message(self) -> Seq<char> {
        match self {
            Error::OnlyOwner => "only owner allowed"@,
            Error::NotAllowedToActivate => "not allowed to activate"@,
            Error::BootstrapMode => "cannot stake nodes in bootstrap mode"@,
            Error::GlobalOperationInProgress => "node operations are temporarily paused as checkpoint is reset"@,
            Error::NotEnoughFunds => "not enough funds in contract to stake nodes"@,
            Error::NotEnoughActiveStake => "cannot offer more than the user active stake"@,
            Error::NotEnoughUnbondStake => "not enough stake in unbond period"@,
            Error::NoKeysProvided => "no BLS keys provided"@,
            Error::UnknownNode => "unknown node provided"@,
            Error::NodeNotInactive => "node must be inactive"@,
            Error::NodeNotActive => "node not active"@,
            Error::NodeCannotBeUnbonded => "node cannot be unbonded"@,
            Error::NodeNotPending => "node not pending"@,
            Error::NotEnoughPendingStake => "not enough stake pending"@,
            Error::MissingNodeStatus => "node status missing from response"@,
        }
    }

    /// The reason in words.
    pub fn message(&self) -> (r: &'static str)
        ensures
            r@ == self.spec_message(),
    {
        match self {
            Error::OnlyOwner => "only owner allowed",
            Error::NotAllowedToActivate => "not allowed to activate",
            Error::BootstrapMode => "cannot stake nodes in bootstrap mode",
            Error::GlobalOperationInProgress => "node operations are temporarily paused as checkpoint is reset",
            Error::NotEnoughFunds => "not enough funds in contract to stake nodes",
            Error::NotEnoughActiveStake => "cannot offer more than the user active stake",
            Error::NotEnoughUnbondStake => "not enough stake in unbond period",
            Error::NoKeysProvided => "no BLS keys provided",
            Error::UnknownNode => "unknown node provided",
            Error::NodeNotInactive => "node must be inactive",
            Error::NodeNotActive => "node not active",
            Error::NodeCannotBeUnbonded => "node cannot be unbonded",
            Error::NodeNotPending => "node not pending",
            Error::NotEnoughPendingStake => "not enough stake pending",
            Error::MissingNodeStatus => "node status missing from response",
        }
    }
}

} // verus!
