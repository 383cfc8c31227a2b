use vstd::prelude::*;

verus! {

/// The accounting phase that a fund bucket is in.
#[derive(Clone, Copy, Debug, PartialEq, Eq, Structural)]
pub enum FundType {
    Waiting,
    PendingActivation,
    ActivationFailed,
    Active,
    PendingDeactivation,
    UnStaked,
    PendingUnBond,
    DeferredPayment,
    WithdrawOnly,
}

/// A phase together with the block at which the bucket was created, for the
/// phases whose eligibility depends on elapsed blocks.
#[derive(Clone, Copy, Debug, PartialEq, Eq, Structural)]
pub enum FundDescription {
    Waiting,
    PendingActivation,
    ActivationFailed,
    Active,
    PendingDeactivation { created: u64 },
    UnStaked { created: u64 },
    PendingUnBond { created: u64 },
    DeferredPayment { created: u64 },
    WithdrawOnly,
}

impl FundDescription {
    /// The phase of this description.
    pub open spec fn spec_fund_type(self) -> FundType {
        match self {
            FundDescription::Waiting => FundType::Waiting,
            FundDescription::PendingActivation => FundType::PendingActivation,
            FundDescription::ActivationFailed => FundType::ActivationFailed,
            FundDescription::Active => FundType::Active,
            FundDescription::PendingDeactivation { .. } => FundType::PendingDeactivation,
            FundDescription::UnStaked { .. } => FundType::UnStaked,
            FundDescription::PendingUnBond { .. } => FundType::PendingUnBond,
            FundDescription::DeferredPayment { .. } => FundType::DeferredPayment,
            FundDescription::WithdrawOnly => FundType::WithdrawOnly,
        }
    }

    /// The creation block, for the phases that carry one.
    pub open spec fn spec_created(self) -> Option<u64> {
        match self {
            FundDescription::PendingDeactivation { created } => Some(created),
            FundDescription::UnStaked { created } => Some(created),
            FundDescription::PendingUnBond { created } => Some(created),
            FundDescription::DeferredPayment { created } => Some(created),
            _ => None,
        }
    }

    /// The phase of this description.
    pub fn fund_type(&self) -> (r: FundType)
        ensures
            r == self.spec_fund_type(),
    {
        match self {
            FundDescription::Waiting => FundType::Waiting,
            FundDescription::PendingActivation => FundType::PendingActivation,
            FundDescription::ActivationFailed => FundType::ActivationFailed,
            FundDescription::Active => FundType::Active,
            FundDescription::PendingDeactivation { .. } => FundType::PendingDeactivation,
            FundDescription::UnStaked { .. } => FundType::UnStaked,
            FundDescription::PendingUnBond { .. } => FundType::PendingUnBond,
            FundDescription::DeferredPayment { .. } => FundType::DeferredPayment,
            FundDescription::WithdrawOnly => FundType::WithdrawOnly,
        }
    }

    /// The creation block, for the phases that carry one.
    pub fn created(&self) -> (r: Option<u64>)
        ensures
            r == self.spec_created(),
    {
        match self {
            FundDescription::PendingDeactivation { created } => Some(*created),
            FundDescription::UnStaked { created } => Some(*created),
            FundDescription::PendingUnBond { created } => Some(*created),
            FundDescription::DeferredPayment { created } => Some(*created),
            _ => None,
        }
    }
}

impl FundType {
    /// The description of this phase that carries `created`; `None` for a
    /// phase that carries no block.
    pub open spec fn spec_tagged(self, created: u64) -> Option<FundDescription> {
        match self {
            FundType::PendingDeactivation => Some(FundDescription::PendingDeactivation { created }),
            FundType::UnStaked => Some(FundDescription::UnStaked { created }),
            FundType::PendingUnBond => Some(FundDescription::PendingUnBond { created }),
            FundType::DeferredPayment => Some(FundDescription::DeferredPayment { created }),
            _ => None,
        }
    }

    /// The description of this phase that carries `created`; `None` for a
    /// phase that carries no block.
    pub fn tagged(&self, created: u64) -> (r: Option<FundDescription>)
        ensures
            r == self.spec_tagged(created),
    {
        match self {
            FundType::PendingDeactivation => Some(FundDescription::PendingDeactivation { created }),
            FundType::UnStaked => Some(FundDescription::UnStaked { created }),
            FundType::PendingUnBond => Some(FundDescription::PendingUnBond { created }),
            FundType::DeferredPayment => Some(FundDescription::DeferredPayment { created }),
            _ => None,
        }
    }
}

/// An age test on a bucket's creation block: it passes when strictly more
/// than `delay` blocks lie between `created` and `now`.
#[derive(Clone, Copy, Debug, PartialEq, Eq, Structural)]
pub struct AgeGate {
    pub now: u64,
    pub delay: u64,
}

impl AgeGate {
    /// Whether a bucket created at `created` passes.
    pub open spec fn spec_passes(self, created: u64) -> bool {
        self.now > created + self.delay
    }

    /// Whether a bucket created at `created` passes.
    pub fn passes(&self, created: u64) -> (r: bool)
        ensures
            r == self.spec_passes(created),
    {
        self.delay < self.now && created < self.now - self.delay
    }
}

/// Where a converted amount goes.
#[derive(Clone, Copy, Debug, PartialEq, Eq, Structural)]
pub enum Target {
    /// Always the given description.
    Fixed(FundDescription),
    /// The given phase, carrying the creation block of the source bucket.
    SameTag(FundType),
}

/// The filter and the mapping of one transformation: which buckets take part
/// and what their amount becomes.
#[derive(Clone, Copy, Debug, PartialEq, Eq, Structural)]
pub struct Conversion {
    pub gate: Option<AgeGate>,
    pub target: Target,
}

impl Conversion {
    /// The phase that every converted amount ends in.
    pub open spec fn spec_target_type(self) -> FundType {
        match self.target {
            Target::Fixed(d) => d.spec_fund_type(),
            Target::SameTag(k) => k,
        }
    }

    /// What a bucket of description `d` becomes, or `None` where it takes no
    /// part.
    pub open spec fn spec_apply(self, d: FundDescription) -> Option<FundDescription> {
        let old_enough = match self.gate {
            Some(g) => d.spec_created() is Some && g.spec_passes(d.spec_created().unwrap()),
            None => true,
        };
        if !old_enough {
            None
        } else {
            match self.target {
                Target::Fixed(t) => Some(t),
                Target::SameTag(k) => match d.spec_created() {
                    Some(c) => k.spec_tagged(c),
                    None => None,
                },
            }
        }
    }

    /// What a bucket of description `d` becomes, or `None` where it takes no
    /// part.
    pub fn apply(&self, d: FundDescription) -> (r: Option<FundDescription>)
        ensures
            r == self.spec_apply(d),
            r is Some ==> r.unwrap().spec_fund_type() == self.spec_target_type(),
    {
        let created = d.created();
        let old_enough = match self.gate {
            Some(g) => match created {
                Some(c) => g.passes(c),
                None => false,
            },
            None => true,
        };
        if !old_enough {
            None
        } else {
            match self.target {
                Target::Fixed(t) => Some(t),
                Target::SameTag(k) => match created {
                    Some(c) => k.tagged(c),
                    None => None,
                },
            }
        }
    }

    /// A conversion without an age test into one fixed description.
    pub fn into_fixed(d: FundDescription) -> (r: Conversion)
        ensures
            r == (Conversion { gate: None, target: Target::Fixed(d) }),
    {
        Conversion { gate: None, target: Target::Fixed(d) }
    }

    /// A conversion without an age test that keeps the creation block.
    pub fn keeping_tag(k: FundType) -> (r: Conversion)
        ensures
            r == (Conversion { gate: None, target: Target::SameTag(k) }),
    {
        Conversion { gate: None, target: Target::SameTag(k) }
    }
}

/// An amount of stake of one owner in one phase.
#[derive(Clone, Copy, Debug, PartialEq, Eq, Structural)]
pub struct Bucket {
    pub owner: usize,
    pub desc: FundDescription,
    pub amount: u128,
}

} // verus!
