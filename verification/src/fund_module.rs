use vstd::prelude::*;
use crate::fund_type::{Bucket, Conversion, FundDescription, FundType, Target};
use crate::owner_list::{sorted_distinct, strictly_increasing};

verus! {

/// Whether bucket `b` belongs to `who` (every owner where `None`) and is in
/// phase `kind` (every phase where `None`).
pub open spec fn selected(b: Bucket, who: Option<usize>, kind: Option<FundType>) -> bool {
    &&& (who is None || who == Some(b.owner))
    &&& (kind is None || kind == Some(b.desc.spec_fund_type()))
}

/// The sum of the amounts of the selected buckets of `s`.
pub open spec fn sum(s: Seq<Bucket>, who: Option<usize>, kind: Option<FundType>) -> nat
    decreases s.len(),
{
    if s.len() == 0 {
        0
    } else {
        sum(s.drop_last(), who, kind) + if selected(s.last(), who, kind) {
            s.last().amount as nat
        } else {
            0
        }
    }
}

/// Whether bucket `b` takes part in a transformation of the buckets of
/// `who` in phase `kind` under `rule`.
pub open spec fn eligible(b: Bucket, who: Option<usize>, kind: FundType, rule: Conversion) -> bool {
    selected(b, who, Some(kind)) && rule.spec_apply(b.desc) is Some
}

/// The sum of the amounts of the buckets of `s` that take part.
pub open spec fn eligible_sum(s: Seq<Bucket>, who: Option<usize>, kind: FundType, rule: Conversion) -> nat
    decreases s.len(),
{
    if s.len() == 0 {
        0
    } else {
        eligible_sum(s.drop_last(), who, kind, rule) + if eligible(s.last(), who, kind, rule) {
            s.last().amount as nat
        } else {
            0
        }
    }
}

/// The smaller of two numbers.
pub open spec fn min_nat(a: nat, b: nat) -> nat {
    if a <= b { a } else { b }
}

/// The outcome of a scan: what stays in place, what was made, and how much
/// of the limit is left.
pub struct Scan {
    pub kept: Seq<Bucket>,
    pub made: Seq<Bucket>,
    pub left: nat,
}

/// How much the scan takes out of bucket `b` when `left` of the limit remains.
pub open spec fn taken(b: Bucket, left: nat, who: Option<usize>, kind: FundType, rule: Conversion) -> nat {
    if eligible(b, who, kind, rule) { min_nat(b.amount as nat, left) } else { 0 }
}

/// The scan of `s` in order: each bucket that takes part gives what the
/// remaining limit allows; what it gives becomes a bucket of the same owner
/// under the mapped description, what it keeps stays in place, and a bucket
/// left empty disappears.
pub open spec fn scan(s: Seq<Bucket>, limit: nat, who: Option<usize>, kind: FundType, rule: Conversion) -> Scan
    decreases s.len(),
{
    if s.len() == 0 {
        Scan { kept: Seq::empty(), made: Seq::empty(), left: limit }
    } else {
        let prev = scan(s.drop_last(), limit, who, kind, rule);
        let b = s.last();
        let x = taken(b, prev.left, who, kind, rule);
        Scan {
            kept: if b.amount > x {
                prev.kept.push(Bucket { owner: b.owner, desc: b.desc, amount: (b.amount - x) as u128 })
            } else {
                prev.kept
            },
            made: if x > 0 {
                prev.made.push(Bucket { owner: b.owner, desc: rule.spec_apply(b.desc).unwrap(), amount: x as u128 })
            } else {
                prev.made
            },
            left: (prev.left - x) as nat,
        }
    }
}

/// The owners of the buckets, bucket by bucket.
pub open spec fn owners(s: Seq<Bucket>) -> Seq<usize> {
    s.map_values(|b: Bucket| b.owner)
}

/// Whether no bucket is empty.
pub open spec fn all_positive(s: Seq<Bucket>) -> bool {
    forall|i: int| 0 <= i < s.len() ==> (#[trigger] s[i]).amount > 0
}

/// The sum over two lists in a row is the sum of their sums.
pub proof fn lemma_sum_concat(a: Seq<Bucket>, b: Seq<Bucket>, who: Option<usize>, kind: Option<FundType>)
    ensures
        sum(a + b, who, kind) == sum(a, who, kind) + sum(b, who, kind),
    decreases b.len(),
{
    if b.len() == 0 {
        assert(a + b =~= a);
    } else {
        lemma_sum_concat(a, b.drop_last(), who, kind);
        assert((a + b).drop_last() =~= a + b.drop_last());
    }
}

/// The sum over the first buckets is at most the sum over all.
pub proof fn lemma_sum_prefix(s: Seq<Bucket>, n: int, who: Option<usize>, kind: Option<FundType>)
    requires
        0 <= n <= s.len(),
    ensures
        sum(s.take(n), who, kind) <= sum(s, who, kind),
{
    lemma_sum_concat(s.take(n), s.skip(n), who, kind);
    assert(s.take(n) + s.skip(n) =~= s);
}

/// A selection is contained in each wider selection.
pub proof fn lemma_sum_le_total(s: Seq<Bucket>, who: Option<usize>, kind: Option<FundType>)
    ensures
        sum(s, who, kind) <= sum(s, who, None),
        sum(s, who, kind) <= sum(s, None, kind),
        sum(s, who, kind) <= sum(s, None, None),
    decreases s.len(),
{
    if s.len() > 0 {
        lemma_sum_le_total(s.drop_last(), who, kind);
    }
}

/// What takes part is at most what is selected.
pub proof fn lemma_eligible_sum_le(s: Seq<Bucket>, who: Option<usize>, kind: FundType, rule: Conversion)
    ensures
        eligible_sum(s, who, kind, rule) <= sum(s, who, Some(kind)),
    decreases s.len(),
{
    if s.len() > 0 {
        lemma_eligible_sum_le(s.drop_last(), who, kind, rule);
    }
}

/// Under a rule without an age test and with a fixed target every selected
/// bucket takes part.
pub proof fn lemma_eligible_sum_all(s: Seq<Bucket>, who: Option<usize>, kind: FundType, rule: Conversion)
    requires
        rule.gate is None,
        rule.target is Fixed,
    ensures
        eligible_sum(s, who, kind, rule) == sum(s, who, Some(kind)),
    decreases s.len(),
{
    if s.len() > 0 {
        lemma_eligible_sum_all(s.drop_last(), who, kind, rule);
    }
}

/// What a scan moves is the limit or all that takes part, whichever is
/// smaller, and it is the sum of what was made.
pub proof fn lemma_scan_moved(s: Seq<Bucket>, limit: nat, who: Option<usize>, kind: FundType, rule: Conversion)
    ensures
        scan(s, limit, who, kind, rule).left <= limit,
        limit - scan(s, limit, who, kind, rule).left == min_nat(limit, eligible_sum(s, who, kind, rule)),
        sum(scan(s, limit, who, kind, rule).made, None, None) == limit - scan(s, limit, who, kind, rule).left,
    decreases s.len(),
{
    if s.len() > 0 {
        lemma_scan_moved(s.drop_last(), limit, who, kind, rule);
        let prev = scan(s.drop_last(), limit, who, kind, rule);
        let x = taken(s.last(), prev.left, who, kind, rule);
        if x > 0 {
            assert(prev.made.push(scan(s, limit, who, kind, rule).made.last()).drop_last() =~= prev.made);
        }
    }
}

/// The accounts of a scan, seen by `obs` (one owner, or the whole pool) in
/// phase `k`: what is kept and what was made add up to what was there; what
/// was made is in the target phase and came out of the source phase.
pub proof fn lemma_scan_accounts(
    s: Seq<Bucket>,
    limit: nat,
    who: Option<usize>,
    kind: FundType,
    rule: Conversion,
    obs: Option<usize>,
    k: FundType,
)
    ensures
        ({
            let r = scan(s, limit, who, kind, rule);
            &&& sum(r.kept, obs, None) + sum(r.made, obs, None) == sum(s, obs, None)
            &&& sum(r.made, obs, Some(k)) == if k == rule.spec_target_type() {
                sum(r.made, obs, None)
            } else {
                0
            }
            &&& sum(r.kept, obs, Some(k)) + (if k == kind {
                sum(r.made, obs, None)
            } else {
                0
            }) == sum(s, obs, Some(k))
            &&& (who is Some && obs is Some && who != obs) ==> sum(r.made, obs, None) == 0
        }),
    decreases s.len(),
{
    if s.len() > 0 {
        lemma_scan_accounts(s.drop_last(), limit, who, kind, rule, obs, k);
        let prev = scan(s.drop_last(), limit, who, kind, rule);
        let r = scan(s, limit, who, kind, rule);
        let b = s.last();
        let x = taken(b, prev.left, who, kind, rule);
        if b.amount > x {
            assert(r.kept.drop_last() =~= prev.kept);
        }
        if x > 0 {
            assert(r.made.drop_last() =~= prev.made);
        }
    }
}

/// In a scan of one owner's buckets everything made belongs to that owner.
pub proof fn lemma_scan_made_owner(s: Seq<Bucket>, limit: nat, who: Option<usize>, kind: FundType, rule: Conversion)
    requires
        who is Some,
    ensures
        sum(scan(s, limit, who, kind, rule).made, who, None) == sum(scan(s, limit, who, kind, rule).made, None, None),
    decreases s.len(),
{
    if s.len() > 0 {
        lemma_scan_made_owner(s.drop_last(), limit, who, kind, rule);
        let prev = scan(s.drop_last(), limit, who, kind, rule);
        let r = scan(s, limit, who, kind, rule);
        let x = taken(s.last(), prev.left, who, kind, rule);
        if x > 0 {
            assert(r.made.drop_last() =~= prev.made);
        }
    }
}

/// Under a limit that covers all that takes part, a pool-wide scan moves
/// from every owner all of that owner's stake that takes part.
pub proof fn lemma_scan_all(s: Seq<Bucket>, limit: nat, kind: FundType, rule: Conversion, obs: Option<usize>)
    requires
        eligible_sum(s, None, kind, rule) <= limit,
    ensures
        sum(scan(s, limit, None, kind, rule).made, obs, None) == eligible_sum(s, obs, kind, rule),
        scan(s, limit, None, kind, rule).left == limit - eligible_sum(s, None, kind, rule),
    decreases s.len(),
{
    if s.len() > 0 {
        lemma_scan_all(s.drop_last(), limit, kind, rule, obs);
        let prev = scan(s.drop_last(), limit, None, kind, rule);
        let r = scan(s, limit, None, kind, rule);
        let x = taken(s.last(), prev.left, None, kind, rule);
        if x > 0 {
            assert(r.made.drop_last() =~= prev.made);
        }
    }
}

/// A scan keeps and makes only buckets with a positive amount, and it makes
/// none under a limit of zero.
pub proof fn lemma_scan_positive(s: Seq<Bucket>, limit: nat, who: Option<usize>, kind: FundType, rule: Conversion)
    requires
        all_positive(s),
    ensures
        all_positive(scan(s, limit, who, kind, rule).kept),
        all_positive(scan(s, limit, who, kind, rule).made),
    decreases s.len(),
{
    if s.len() > 0 {
        lemma_scan_positive(s.drop_last(), limit, who, kind, rule);
    }
}

/// A bucket that takes no part in a scan stays as it is: where nothing
/// takes part, or the limit is zero, the scan changes nothing.
pub proof fn lemma_scan_nothing(s: Seq<Bucket>, limit: nat, who: Option<usize>, kind: FundType, rule: Conversion)
    requires
        all_positive(s),
        limit == 0 || eligible_sum(s, who, kind, rule) == 0,
    ensures
        scan(s, limit, who, kind, rule).kept == s,
        scan(s, limit, who, kind, rule).made == Seq::<Bucket>::empty(),
        scan(s, limit, who, kind, rule).left == limit,
    decreases s.len(),
{
    if s.len() > 0 {
        lemma_scan_nothing(s.drop_last(), limit, who, kind, rule);
        assert(s.drop_last().push(s.last()) =~= s);
    }
}

/// The fund ledger: amounts tagged with their owner and phase, in the order
/// in which transformations scan them.
#[derive(Debug)]
pub struct FundModule {
    pub buckets: Vec<Bucket>,
}

/// What a transformation reports: the owners of the buckets it made, each
/// once and in increasing order, how much it moved, and how much of the
/// limit it left.
#[derive(Debug)]
pub struct Moved {
    pub owners: Vec<usize>,
    pub moved: u128,
    pub left: u128,
}

impl View for FundModule {
    type V = Seq<Bucket>;

    open spec fn view(&self) -> Seq<Bucket> {
        self.buckets@
    }
}

impl FundModule {
    /// No bucket is empty, and all amounts together fit the machine's
    /// largest amount.
    pub open spec fn wf(&self) -> bool {
        &&& all_positive(self@)
        &&& sum(self@, None, None) <= u128::MAX
    }

    /// The balance of `who` (the whole pool where `None`) in phase `kind`
    /// (all phases where `None`).
    pub open spec fn spec_sum(&self, who: Option<usize>, kind: Option<FundType>) -> nat {
        sum(self@, who, kind)
    }

    /// A ledger without buckets.
    pub fn new() -> (r: FundModule)
        ensures
            r.wf(),
            r@ == Seq::<Bucket>::empty(),
    {
        FundModule { buckets: Vec::new() }
    }

    /// The balance of `who` in phase `kind`.
    pub fn query_sum(&self, who: Option<usize>, kind: Option<FundType>) -> (r: u128)
        requires
            self.wf(),
        ensures
            r == self.spec_sum(who, kind),
    {
        let mut acc: u128 = 0;
        let mut i: usize = 0;
        while i < self.buckets.len()
            invariant
                i <= self.buckets.len(),
                self.wf(),
                acc == sum(self@.take(i as int), who, kind),
            decreases self.buckets.len() - i,
        {
            let b = self.buckets[i];
            proof {
                assert(self@.take(i + 1).drop_last() =~= self@.take(i as int));
                lemma_sum_prefix(self@, i + 1, who, kind);
                lemma_sum_le_total(self@, who, kind);
            }
            let owner_ok = match who {
                Some(o) => o == b.owner,
                None => true,
            };
            let kind_ok = match kind {
                Some(k) => k == b.desc.fund_type(),
                None => true,
            };
            if owner_ok && kind_ok {
                acc = acc + b.amount;
            }
            i = i + 1;
        }
        proof {
            assert(self@.take(i as int) =~= self@);
        }
        acc
    }

    /// The sum of the buckets of `who` in phase `kind` that take part under
    /// `rule`.
    pub fn query_sum_funds_by_user_type(&self, who: Option<usize>, kind: FundType, rule: Conversion) -> (r: u128)
        requires
            self.wf(),
        ensures
            r == eligible_sum(self@, who, kind, rule),
    {
        let mut acc: u128 = 0;
        let mut i: usize = 0;
        while i < self.buckets.len()
            invariant
                i <= self.buckets.len(),
                self.wf(),
                acc == eligible_sum(self@.take(i as int), who, kind, rule),
            decreases self.buckets.len() - i,
        {
            let b = self.buckets[i];
            proof {
                assert(self@.take(i + 1).drop_last() =~= self@.take(i as int));
                lemma_eligible_sum_le(self@.take(i + 1), who, kind, rule);
                lemma_sum_prefix(self@, i + 1, who, Some(kind));
                lemma_sum_le_total(self@, who, Some(kind));
            }
            let owner_ok = match who {
                Some(o) => o == b.owner,
                None => true,
            };
            if owner_ok && kind == b.desc.fund_type() && rule.apply(b.desc).is_some() {
                acc = acc + b.amount;
            }
            i = i + 1;
        }
        proof {
            assert(self@.take(i as int) =~= self@);
        }
        acc
    }

    /// Whether `amount` more can be deposited.
    pub fn fits(&self, amount: u128) -> (r: bool)
        requires
            self.wf(),
        ensures
            r == (self.spec_sum(None, None) + amount <= u128::MAX),
    {
        let total = self.query_sum(None, None);
        amount <= u128::MAX - total
    }

    /// Deposits `amount` for `owner` under `desc`. A deposit of zero leaves
    /// the ledger as it is.
    pub fn deposit(&mut self, owner: usize, desc: FundDescription, amount: u128)
        requires
            old(self).wf(),
            old(self).spec_sum(None, None) + amount <= u128::MAX,
        ensures
            final(self).wf(),
            final(self)@ == if amount > 0 {
                old(self)@.push(Bucket { owner, desc, amount })
            } else {
                old(self)@
            },
            forall|who: Option<usize>, kind: Option<FundType>|
                #[trigger] sum(final(self)@, who, kind) == sum(old(self)@, who, kind) + if selected(
                    Bucket { owner, desc, amount },
                    who,
                    kind,
                ) {
                    amount as nat
                } else {
                    0
                },
    {
        if amount > 0 {
            self.buckets.push(Bucket { owner, desc, amount });
            proof {
                assert(final(self)@.drop_last() =~= old(self)@);
            }
        }
    }
}

/// The limit of a transformation as a number: without one, the largest
/// amount that a ledger can hold.
pub open spec fn limit_of(max_amount: Option<u128>) -> nat {
    match max_amount {
        Some(x) => x as nat,
        None => u128::MAX as nat,
    }
}

/// How much of what a transformation moves belongs to `obs`.
pub open spec fn moved_of(
    s: Seq<Bucket>,
    limit: nat,
    who: Option<usize>,
    kind: FundType,
    rule: Conversion,
    obs: Option<usize>,
) -> nat {
    sum(scan(s, limit, who, kind, rule).made, obs, None)
}

/// The ledger after a transformation: what the scan kept, then what it made.
pub open spec fn converted(s: Seq<Bucket>, limit: nat, who: Option<usize>, kind: FundType, rule: Conversion) -> Seq<
    Bucket,
> {
    scan(s, limit, who, kind, rule).kept + scan(s, limit, who, kind, rule).made
}

/// The accounts of a transformation. For every observer (one owner, or the
/// pool): the balance over all phases stays; the balance in a phase falls by
/// what was moved out of it and rises by what was moved into it, so the
/// source and target phases together hold what they held.
pub proof fn lemma_converted_accounts(
    s: Seq<Bucket>,
    limit: nat,
    who: Option<usize>,
    kind: FundType,
    rule: Conversion,
    obs: Option<usize>,
    k: FundType,
)
    ensures
        sum(converted(s, limit, who, kind, rule), obs, None) == sum(s, obs, None),
        moved_of(s, limit, who, kind, rule, obs) <= sum(s, obs, Some(kind)),
        sum(converted(s, limit, who, kind, rule), obs, Some(k)) == sum(s, obs, Some(k)) - (if k == kind {
            moved_of(s, limit, who, kind, rule, obs)
        } else {
            0
        }) + (if k == rule.spec_target_type() {
            moved_of(s, limit, who, kind, rule, obs)
        } else {
            0
        }),
        moved_of(s, limit, who, kind, rule, None) == min_nat(limit, eligible_sum(s, who, kind, rule)),
        who is Some ==> moved_of(s, limit, who, kind, rule, who) == moved_of(s, limit, who, kind, rule, None),
        (who is Some && obs is Some && who != obs) ==> moved_of(s, limit, who, kind, rule, obs) == 0,
{
    let r = scan(s, limit, who, kind, rule);
    lemma_scan_accounts(s, limit, who, kind, rule, obs, k);
    lemma_scan_accounts(s, limit, who, kind, rule, obs, kind);
    lemma_scan_moved(s, limit, who, kind, rule);
    lemma_sum_concat(r.kept, r.made, obs, None);
    lemma_sum_concat(r.kept, r.made, obs, Some(k));
    if who is Some {
        lemma_scan_made_owner(s, limit, who, kind, rule);
    }
}

/// Value is relabelled, never made or lost: for every observer (one owner,
/// or the pool) the balance over all phases is the same in `before` and
/// `after`, so is the balance in each phase other than `from` and `to`, and
/// so is the balance in `from` and `to` together.
pub open spec fn conserves(before: Seq<Bucket>, after: Seq<Bucket>, from: FundType, to: FundType) -> bool {
    &&& forall|obs: Option<usize>| #[trigger] sum(after, obs, None) == sum(before, obs, None)
    &&& forall|obs: Option<usize>, k: FundType|
        k != from && k != to ==> #[trigger] sum(after, obs, Some(k)) == sum(before, obs, Some(k))
    &&& forall|obs: Option<usize>| #[trigger]
        sum(after, obs, Some(from)) + sum(after, obs, Some(to)) == sum(before, obs, Some(from)) + sum(
            before,
            obs,
            Some(to),
        )
}

/// Every transformation conserves value.
pub proof fn lemma_converted_conserves(s: Seq<Bucket>, limit: nat, who: Option<usize>, kind: FundType, rule: Conversion)
    ensures
        conserves(s, converted(s, limit, who, kind, rule), kind, rule.spec_target_type()),
{
    let after = converted(s, limit, who, kind, rule);
    let to = rule.spec_target_type();
    assert forall|obs: Option<usize>| #[trigger] sum(after, obs, None) == sum(s, obs, None) by {
        lemma_converted_accounts(s, limit, who, kind, rule, obs, kind);
    }
    assert forall|obs: Option<usize>, k: FundType| k != kind && k != to implies #[trigger] sum(after, obs, Some(k))
        == sum(s, obs, Some(k)) by {
        lemma_converted_accounts(s, limit, who, kind, rule, obs, k);
    }
    assert forall|obs: Option<usize>| #[trigger]
        sum(after, obs, Some(kind)) + sum(after, obs, Some(to)) == sum(s, obs, Some(kind)) + sum(
            s,
            obs,
            Some(to),
        ) by {
        lemma_converted_accounts(s, limit, who, kind, rule, obs, kind);
        lemma_converted_accounts(s, limit, who, kind, rule, obs, to);
    }
}

impl FundModule {
    /// Runs the scan: returns what is kept, what is made, the owners of
    /// what is made, and what is left of the limit.
    fn run_scan(&self, limit: u128, who: Option<usize>, kind: FundType, rule: Conversion) -> (r: (
        Vec<Bucket>,
        Vec<Bucket>,
        Vec<usize>,
        u128,
    ))
        requires
            self.wf(),
        ensures
            r.0@ == scan(self@, limit as nat, who, kind, rule).kept,
            r.1@ == scan(self@, limit as nat, who, kind, rule).made,
            r.2@ == owners(r.1@),
            r.3 == scan(self@, limit as nat, who, kind, rule).left,
    {
        let mut kept: Vec<Bucket> = Vec::new();
        let mut made: Vec<Bucket> = Vec::new();
        let mut touched: Vec<usize> = Vec::new();
        let mut left: u128 = limit;
        let mut i: usize = 0;
        proof {
            assert(owners(made@) =~= touched@);
        }
        while i < self.buckets.len()
            invariant
                i <= self.buckets.len(),
                kept@ == scan(self@.take(i as int), limit as nat, who, kind, rule).kept,
                made@ == scan(self@.take(i as int), limit as nat, who, kind, rule).made,
                left == scan(self@.take(i as int), limit as nat, who, kind, rule).left,
                touched@ == owners(made@),
            decreases self.buckets.len() - i,
        {
            let b = self.buckets[i];
            proof {
                assert(self@.take(i + 1).drop_last() =~= self@.take(i as int));
                assert(self@.take(i + 1).last() == b);
            }
            let owner_ok = match who {
                Some(o) => o == b.owner,
                None => true,
            };
            let mapped = rule.apply(b.desc);
            let x: u128 = if owner_ok && kind == b.desc.fund_type() && mapped.is_some() {
                if b.amount <= left { b.amount } else { left }
            } else {
                0
            };
            if b.amount > x {
                kept.push(Bucket { owner: b.owner, desc: b.desc, amount: b.amount - x });
            }
            if x > 0 {
                let ghost before = made@;
                made.push(Bucket { owner: b.owner, desc: mapped.unwrap(), amount: x });
                touched.push(b.owner);
                proof {
                    assert(owners(made@) =~= owners(before).push(b.owner));
                }
            }
            left = left - x;
            i = i + 1;
        }
        proof {
            assert(self@.take(i as int) =~= self@);
        }
        (kept, made, touched, left)
    }

    /// Withdraws from the buckets of `owner` in phase `kind`, in scan order,
    /// up to `amount`; returns what was withdrawn: `amount`, or all that
    /// `owner` holds in that phase where that is less. Every balance that
    /// covers these buckets falls by what was withdrawn, and no other
    /// balance changes.
    pub fn withdraw_max(&mut self, owner: usize, kind: FundType, amount: u128) -> (withdrawn: u128)
        requires
            old(self).wf(),
        ensures
            final(self).wf(),
            withdrawn == min_nat(amount as nat, old(self).spec_sum(Some(owner), Some(kind))),
            final(self)@ == scan(
                old(self)@,
                amount as nat,
                Some(owner),
                kind,
                Conversion { gate: None, target: Target::Fixed(FundDescription::WithdrawOnly) },
            ).kept,
            forall|obs: Option<usize>, k: Option<FundType>|
                #[trigger] sum(final(self)@, obs, k) == sum(old(self)@, obs, k) - (if (obs is None || obs == Some(
                    owner,
                )) && (k is None || k == Some(kind)) {
                    withdrawn as nat
                } else {
                    0
                }),
    {
        let rule = Conversion::into_fixed(FundDescription::WithdrawOnly);
        let (kept, made, touched, left) = self.run_scan(amount, Some(owner), kind, rule);
        proof {
            let s = old(self)@;
            let r = scan(s, amount as nat, Some(owner), kind, rule);
            lemma_scan_moved(s, amount as nat, Some(owner), kind, rule);
            lemma_eligible_sum_all(s, Some(owner), kind, rule);
            lemma_scan_positive(s, amount as nat, Some(owner), kind, rule);
            lemma_scan_made_owner(s, amount as nat, Some(owner), kind, rule);
            lemma_scan_accounts(s, amount as nat, Some(owner), kind, rule, None, kind);
            assert forall|obs: Option<usize>, k: Option<FundType>|
                #[trigger] sum(r.kept, obs, k) == sum(s, obs, k) - (if (obs is None || obs == Some(owner)) && (k
                    is None || k == Some(kind)) {
                    amount - left
                } else {
                    0
                }) by {
                match k {
                    Some(kk) => {
                        lemma_scan_accounts(s, amount as nat, Some(owner), kind, rule, obs, kk);
                    },
                    None => {
                        lemma_scan_accounts(s, amount as nat, Some(owner), kind, rule, obs, kind);
                    },
                }
            }
        }
        self.buckets = kept;
        amount - left
    }

    /// Moves up to `max_amount` (all that takes part where `None`) out of
    /// the buckets of `who` (of every owner where `None`) in phase `kind`
    /// that take part under `rule`, in scan order, into buckets of the same
    /// owners under the mapped descriptions.
    pub fn split_convert_max(
        &mut self,
        max_amount: Option<u128>,
        who: Option<usize>,
        kind: FundType,
        rule: Conversion,
    ) -> (r: Moved)
        requires
            old(self).wf(),
        ensures
            final(self).wf(),
            final(self)@ == converted(old(self)@, limit_of(max_amount), who, kind, rule),
            strictly_increasing(r.owners@),
            forall|u: usize|
                r.owners@.contains(u) <==> owners(
                    scan(old(self)@, limit_of(max_amount), who, kind, rule).made,
                ).contains(u),
            r.moved == min_nat(limit_of(max_amount), eligible_sum(old(self)@, who, kind, rule)),
            r.left == match max_amount {
                Some(x) => x - r.moved,
                None => 0,
            },
            conserves(old(self)@, final(self)@, kind, rule.spec_target_type()),
            final(self).spec_sum(None, Some(kind)) == old(self).spec_sum(None, Some(kind)) - (if kind
                == rule.spec_target_type() {
                0
            } else {
                r.moved as nat
            }),
            final(self).spec_sum(None, Some(rule.spec_target_type())) == old(self).spec_sum(
                None,
                Some(rule.spec_target_type()),
            ) + (if kind == rule.spec_target_type() {
                0
            } else {
                r.moved as nat
            }),
    {
        let limit: u128 = match max_amount {
            Some(x) => x,
            None => u128::MAX,
        };
        let (mut kept, mut made, touched, left) = self.run_scan(limit, who, kind, rule);
        proof {
            let s = old(self)@;
            lemma_scan_positive(s, limit as nat, who, kind, rule);
            lemma_converted_accounts(s, limit as nat, who, kind, rule, None, kind);
            lemma_converted_accounts(s, limit as nat, who, kind, rule, None, rule.spec_target_type());
            lemma_scan_moved(s, limit as nat, who, kind, rule);
            lemma_converted_conserves(s, limit as nat, who, kind, rule);
        }
        kept.append(&mut made);
        self.buckets = kept;
        Moved {
            owners: sorted_distinct(&touched),
            moved: limit - left,
            left: match max_amount {
                Some(x) => left,
                None => 0,
            },
        }
    }

    /// Moves up to `max_amount` out of the buckets of every owner in phase
    /// `kind` that take part under `rule`; see `split_convert_max`.
    pub fn split_convert_max_by_type(&mut self, max_amount: Option<u128>, kind: FundType, rule: Conversion) -> (r:
        Moved)
        requires
            old(self).wf(),
        ensures
            final(self).wf(),
            final(self)@ == converted(old(self)@, limit_of(max_amount), None, kind, rule),
            strictly_increasing(r.owners@),
            forall|u: usize|
                r.owners@.contains(u) <==> owners(scan(old(self)@, limit_of(max_amount), None, kind, rule).made).contains(
                    u,
                ),
            r.moved == min_nat(limit_of(max_amount), eligible_sum(old(self)@, None, kind, rule)),
            r.left == match max_amount {
                Some(x) => x - r.moved,
                None => 0,
            },
            conserves(old(self)@, final(self)@, kind, rule.spec_target_type()),
    {
        self.split_convert_max(max_amount, None, kind, rule)
    }

    /// Moves up to `max_amount` out of the buckets of `user_id` in phase
    /// `kind` that take part under `rule`, and returns what it moved; see
    /// `split_convert_max`.
    pub fn split_convert_max_by_user(
        &mut self,
        max_amount: Option<u128>,
        user_id: usize,
        kind: FundType,
        rule: Conversion,
    ) -> (moved: u128)
        requires
            old(self).wf(),
        ensures
            final(self).wf(),
            final(self)@ == converted(old(self)@, limit_of(max_amount), Some(user_id), kind, rule),
            moved == min_nat(limit_of(max_amount), eligible_sum(old(self)@, Some(user_id), kind, rule)),
            conserves(old(self)@, final(self)@, kind, rule.spec_target_type()),
    {
        let m = self.split_convert_max(max_amount, Some(user_id), kind, rule);
        m.moved
    }
}

} // verus!
