use vstd::prelude::*;
use crate::errors::Error;
use crate::fund_module::{
    conserves, converted, eligible_sum, lemma_eligible_sum_all, lemma_eligible_sum_le, min_nat, owners, scan, sum,
    FundModule,
};
use crate::fund_type::{AgeGate, Bucket, Conversion, FundDescription, FundType, Target};
use crate::owner_list::strictly_increasing;

verus! {

/// The rule that claims deferred payments: those created more than
/// `n_blocks_before_claim` blocks before `now` become withdrawable.
pub open spec fn claim_rule(now: u64, n_blocks_before_claim: u64) -> Conversion {
    Conversion {
        gate: Some(AgeGate { now, delay: n_blocks_before_claim }),
        target: Target::Fixed(FundDescription::WithdrawOnly),
    }
}

/// The rule that turns every bucket into one of description `d`.
pub open spec fn fixed_rule(d: FundDescription) -> Conversion {
    Conversion { gate: None, target: Target::Fixed(d) }
}

/// The rule that takes every bucket to phase `k` and keeps its creation
/// block.
pub open spec fn tag_rule(k: FundType) -> Conversion {
    Conversion { gate: None, target: Target::SameTag(k) }
}

/// The business operations on a fund ledger.
pub trait FundTransformationsModule: Sized {
    /// The buckets of the ledger, in scan order.
    spec fn buckets(&self) -> Seq<Bucket>;

    /// Whether the ledger is well formed.
    spec fn ledger_wf(&self) -> bool;

    /// Deposits `balance` as waiting stake of `user_id`.
    fn create_waiting(&mut self, user_id: usize, balance: u128)
        requires
            old(self).ledger_wf(),
            sum(old(self).buckets(), None, None) + balance <= u128::MAX,
        ensures
            final(self).ledger_wf(),
            final(self).buckets() == if balance > 0 {
                old(self).buckets().push(Bucket { owner: user_id, desc: FundDescription::Waiting, amount: balance })
            } else {
                old(self).buckets()
            },
            sum(final(self).buckets(), Some(user_id), Some(FundType::Waiting))
                == sum(old(self).buckets(), Some(user_id), Some(FundType::Waiting)) + balance,
            sum(final(self).buckets(), None, None) == sum(old(self).buckets(), None, None) + balance,
    ;

    /// Takes `amount` out of the free stake of `user_id`: first out of what
    /// is withdraw-only, then out of what is waiting. Returns what could not
    /// be taken.
    fn liquidate_free_stake(&mut self, user_id: usize, amount: u128) -> (left: u128)
        requires
            old(self).ledger_wf(),
        ensures
            final(self).ledger_wf(),
            left == amount - min_nat(
                amount as nat,
                sum(old(self).buckets(), Some(user_id), Some(FundType::WithdrawOnly))
                + sum(old(self).buckets(), Some(user_id), Some(FundType::Waiting)),
            ),
            sum(final(self).buckets(), Some(user_id), Some(FundType::WithdrawOnly))
                == sum(old(self).buckets(), Some(user_id), Some(FundType::WithdrawOnly)) - min_nat(
                amount as nat,
                sum(old(self).buckets(), Some(user_id), Some(FundType::WithdrawOnly)),
            ),
            sum(final(self).buckets(), Some(user_id), Some(FundType::WithdrawOnly))
                + sum(final(self).buckets(), Some(user_id), Some(FundType::Waiting)) + (amount - left)
                == sum(old(self).buckets(), Some(user_id), Some(FundType::WithdrawOnly))
                + sum(old(self).buckets(), Some(user_id), Some(FundType::Waiting)),
            sum(final(self).buckets(), None, None) + (amount - left) == sum(old(self).buckets(), None, None),
            forall|obs: Option<usize>, k: FundType|
                (k != FundType::WithdrawOnly && k != FundType::Waiting) || (obs is Some && obs != Some(user_id))
                    ==> #[trigger] sum(final(self).buckets(), obs, Some(k)) == sum(old(self).buckets(), obs, Some(k)),
    ;

    /// Turns `amount` of the active stake of `unstake_user_id` into unstaked
    /// stake created at `current_bl_nonce`. Fails, and changes nothing, where
    /// the user's active stake is less than `amount`.
    fn unstake_transf(&mut self, unstake_user_id: usize, amount: u128, current_bl_nonce: u64) -> (r: Result<
        (),
        Error,
    >)
        requires
            old(self).ledger_wf(),
        ensures
            final(self).ledger_wf(),
            r is Ok <==> amount <= sum(old(self).buckets(), Some(unstake_user_id), Some(FundType::Active)),
            r is Err ==> r
                == Err::<(), Error>(Error::NotEnoughActiveStake) && final(self).buckets() == old(self).buckets(),
            r is Ok ==> final(self).buckets() == converted(
                old(self).buckets(),
                amount as nat,
                Some(unstake_user_id),
                FundType::Active,
                fixed_rule(FundDescription::UnStaked { created: current_bl_nonce }),
            ),
            r is Ok ==> sum(final(self).buckets(), Some(unstake_user_id), Some(FundType::Active))
                == sum(old(self).buckets(), Some(unstake_user_id), Some(FundType::Active)) - amount,
            r is Ok ==> sum(final(self).buckets(), Some(unstake_user_id), Some(FundType::UnStaked))
                == sum(old(self).buckets(), Some(unstake_user_id), Some(FundType::UnStaked)) + amount,
            conserves(old(self).buckets(), final(self).buckets(), FundType::Active, FundType::UnStaked),
    ;

    /// Turns up to `amount` of the pool's waiting stake into active stake.
    /// Returns the owners touched, each once and in increasing order, and
    /// what could not be turned for want of waiting stake.
    fn swap_waiting_to_active(&mut self, amount: u128) -> (r: (Vec<usize>, u128))
        requires
            old(self).ledger_wf(),
        ensures
            final(self).ledger_wf(),
            final(self).buckets() == converted(
                old(self).buckets(),
                amount as nat,
                None,
                FundType::Waiting,
                fixed_rule(FundDescription::Active),
            ),
            r.1 == amount - min_nat(amount as nat, sum(old(self).buckets(), None, Some(FundType::Waiting))),
            strictly_increasing(r.0@),
            forall|u: usize|
                r.0@.contains(u) <==> owners(
                    scan(
                        old(self).buckets(),
                        amount as nat,
                        None,
                        FundType::Waiting,
                        fixed_rule(FundDescription::Active),
                    ).made,
                ).contains(u),
            conserves(old(self).buckets(), final(self).buckets(), FundType::Waiting, FundType::Active),
    ;

    /// Turns up to `amount` of the pool's active stake into unstaked stake
    /// created at `current_bl_nonce`. Returns the owners touched, each once
    /// and in increasing order, and what could not be turned.
    fn swap_active_to_unstaked(&mut self, amount: u128, current_bl_nonce: u64) -> (r: (Vec<usize>, u128))
        requires
            old(self).ledger_wf(),
        ensures
            final(self).ledger_wf(),
            final(self).buckets() == converted(
                old(self).buckets(),
                amount as nat,
                None,
                FundType::Active,
                fixed_rule(FundDescription::UnStaked { created: current_bl_nonce }),
            ),
            r.1 == amount - min_nat(amount as nat, sum(old(self).buckets(), None, Some(FundType::Active))),
            strictly_increasing(r.0@),
            forall|u: usize|
                r.0@.contains(u) <==> owners(
                    scan(
                        old(self).buckets(),
                        amount as nat,
                        None,
                        FundType::Active,
                        fixed_rule(FundDescription::UnStaked { created: current_bl_nonce }),
                    ).made,
                ).contains(u),
            conserves(old(self).buckets(), final(self).buckets(), FundType::Active, FundType::UnStaked),
    ;

    /// Turns up to `amount` of the pool's unstaked stake into deferred
    /// payments that keep their creation block. Returns what could not be
    /// turned.
    fn swap_unstaked_to_deferred_payment(&mut self, amount: u128) -> (left: u128)
        requires
            old(self).ledger_wf(),
        ensures
            final(self).ledger_wf(),
            final(self).buckets() == converted(
                old(self).buckets(),
                amount as nat,
                None,
                FundType::UnStaked,
                tag_rule(FundType::DeferredPayment),
            ),
            left == amount - min_nat(amount as nat, sum(old(self).buckets(), None, Some(FundType::UnStaked))),
            conserves(old(self).buckets(), final(self).buckets(), FundType::UnStaked, FundType::DeferredPayment),
    ;

    /// The deferred payments of `user_id` that can be claimed at
    /// `current_bl_nonce`: those created more than `n_blocks_before_claim`
    /// blocks earlier.
    fn eligible_deferred_payment(&self, user_id: usize, n_blocks_before_claim: u64, current_bl_nonce: u64) -> (r:
        u128)
        requires
            self.ledger_wf(),
        ensures
            r == eligible_sum(
                self.buckets(),
                Some(user_id),
                FundType::DeferredPayment,
                claim_rule(current_bl_nonce, n_blocks_before_claim),
            ),
    ;

    /// Makes every deferred payment of `user_id` that can be claimed at
    /// `current_bl_nonce` withdrawable, and returns their sum.
    fn claim_all_eligible_deferred_payments(
        &mut self,
        user_id: usize,
        n_blocks_before_claim: u64,
        current_bl_nonce: u64,
    ) -> (r: u128)
        requires
            old(self).ledger_wf(),
        ensures
            final(self).ledger_wf(),
            final(self).buckets() == converted(
                old(self).buckets(),
                u128::MAX as nat,
                Some(user_id),
                FundType::DeferredPayment,
                claim_rule(current_bl_nonce, n_blocks_before_claim),
            ),
            r == eligible_sum(
                old(self).buckets(),
                Some(user_id),
                FundType::DeferredPayment,
                claim_rule(current_bl_nonce, n_blocks_before_claim),
            ),
            sum(final(self).buckets(), Some(user_id), Some(FundType::WithdrawOnly))
                == sum(old(self).buckets(), Some(user_id), Some(FundType::WithdrawOnly)) + r,
            conserves(old(self).buckets(), final(self).buckets(), FundType::DeferredPayment, FundType::WithdrawOnly),
    ;
}

impl FundTransformationsModule for FundModule {
    open spec fn buckets(&self) -> Seq<Bucket> {
        self@
    }

    open spec fn ledger_wf(&self) -> bool {
        self.wf()
    }

    fn create_waiting(&mut self, user_id: usize, balance: u128)
    {
        self.deposit(user_id, FundDescription::Waiting, balance);
    }

    fn liquidate_free_stake(&mut self, user_id: usize, amount: u128) -> (left: u128)
    {
        let first = self.withdraw_max(user_id, FundType::WithdrawOnly, amount);
        let mut rest: u128 = amount - first;
        if rest > 0 {
            let second = self.withdraw_max(user_id, FundType::Waiting, rest);
            rest = rest - second;
        }
        rest
    }

    fn unstake_transf(&mut self, unstake_user_id: usize, amount: u128, current_bl_nonce: u64) -> (r: Result<
        (),
        Error,
    >)
    {
        let rule = Conversion::into_fixed(FundDescription::UnStaked { created: current_bl_nonce });
        let available = self.query_sum(Some(unstake_user_id), Some(FundType::Active));
        if available < amount {
            return Err(Error::NotEnoughActiveStake);
        }
        proof {
            lemma_eligible_sum_all(self@, Some(unstake_user_id), FundType::Active, rule);
            crate::fund_module::lemma_converted_accounts(
                self@,
                amount as nat,
                Some(unstake_user_id),
                FundType::Active,
                rule,
                Some(unstake_user_id),
                FundType::Active,
            );
            crate::fund_module::lemma_converted_accounts(
                self@,
                amount as nat,
                Some(unstake_user_id),
                FundType::Active,
                rule,
                Some(unstake_user_id),
                FundType::UnStaked,
            );
        }
        let _ = self.split_convert_max_by_user(Some(amount), unstake_user_id, FundType::Active, rule);
        Ok(())
    }

    fn swap_waiting_to_active(&mut self, amount: u128) -> (r: (Vec<usize>, u128))
    {
        let rule = Conversion::into_fixed(FundDescription::Active);
        proof {
            lemma_eligible_sum_all(self@, None, FundType::Waiting, rule);
        }
        let m = self.split_convert_max_by_type(Some(amount), FundType::Waiting, rule);
        (m.owners, m.left)
    }

    fn swap_active_to_unstaked(&mut self, amount: u128, current_bl_nonce: u64) -> (r: (Vec<usize>, u128))
    {
        let rule = Conversion::into_fixed(FundDescription::UnStaked { created: current_bl_nonce });
        proof {
            lemma_eligible_sum_all(self@, None, FundType::Active, rule);
        }
        let m = self.split_convert_max_by_type(Some(amount), FundType::Active, rule);
        (m.owners, m.left)
    }

    fn swap_unstaked_to_deferred_payment(&mut self, amount: u128) -> (left: u128)
    {
        let rule = Conversion::keeping_tag(FundType::DeferredPayment);
        proof {
            lemma_eligible_sum_tagged(self@, None, FundType::UnStaked, FundType::DeferredPayment);
        }
        let m = self.split_convert_max_by_type(Some(amount), FundType::UnStaked, rule);
        m.left
    }

    fn eligible_deferred_payment(&self, user_id: usize, n_blocks_before_claim: u64, current_bl_nonce: u64) -> (r:
        u128)
    {
        let rule = Conversion {
            gate: Some(AgeGate { now: current_bl_nonce, delay: n_blocks_before_claim }),
            target: Target::Fixed(FundDescription::WithdrawOnly),
        };
        self.query_sum_funds_by_user_type(Some(user_id), FundType::DeferredPayment, rule)
    }

    fn claim_all_eligible_deferred_payments(
        &mut self,
        user_id: usize,
        n_blocks_before_claim: u64,
        current_bl_nonce: u64,
    ) -> (r: u128)
    {
        let rule = Conversion {
            gate: Some(AgeGate { now: current_bl_nonce, delay: n_blocks_before_claim }),
            target: Target::Fixed(FundDescription::WithdrawOnly),
        };
        proof {
            lemma_eligible_sum_le(self@, Some(user_id), FundType::DeferredPayment, rule);
            crate::fund_module::lemma_sum_le_total(self@, Some(user_id), Some(FundType::DeferredPayment));
            crate::fund_module::lemma_converted_accounts(
                self@,
                u128::MAX as nat,
                Some(user_id),
                FundType::DeferredPayment,
                rule,
                Some(user_id),
                FundType::WithdrawOnly,
            );
        }
        self.split_convert_max_by_user(None, user_id, FundType::DeferredPayment, rule)
    }
}

/// Under a rule without an age test that keeps the creation block, every
/// bucket of a phase that carries one takes part where the target phase
/// carries one too.
pub proof fn lemma_eligible_sum_tagged(s: Seq<Bucket>, who: Option<usize>, kind: FundType, to: FundType)
    requires
        kind.spec_tagged(0) is Some,
        to.spec_tagged(0) is Some,
    ensures
        eligible_sum(s, who, kind, tag_rule(to)) == sum(s, who, Some(kind)),
    decreases s.len(),
{
    if s.len() > 0 {
        lemma_eligible_sum_tagged(s.drop_last(), who, kind, to);
    }
}

} // verus!
