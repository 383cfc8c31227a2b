use delegation_core::errors::Error;
use delegation_core::fund_module::FundModule;
use delegation_core::fund_transf_module::FundTransformationsModule;
use delegation_core::fund_type::{AgeGate, Bucket, Conversion, FundDescription, FundType, Target};
use delegation_core::owner_list::{insert_sorted, sorted_distinct};

fn ledger(entries: &[(usize, FundDescription, u128)]) -> FundModule {
    let mut f = FundModule::new();
    for (owner, desc, amount) in entries {
        assert!(f.fits(*amount));
        f.deposit(*owner, *desc, *amount);
    }
    f
}

#[test]
fn deposit_adds_a_bucket_and_zero_is_pruned() {
    let mut f = FundModule::new();
    f.deposit(7, FundDescription::Waiting, 0);
    assert!(f.buckets.is_empty());
    f.deposit(7, FundDescription::Waiting, 12);
    assert_eq!(f.buckets, vec![Bucket { owner: 7, desc: FundDescription::Waiting, amount: 12 }]);
    assert_eq!(f.query_sum(Some(7), Some(FundType::Waiting)), 12);
    assert_eq!(f.query_sum(Some(8), Some(FundType::Waiting)), 0);
    assert_eq!(f.query_sum(Some(7), Some(FundType::Active)), 0);
    assert_eq!(f.query_sum(None, None), 12);
}

#[test]
fn fits_tells_whether_a_deposit_has_room() {
    let f = ledger(&[(1, FundDescription::Waiting, u128::MAX - 5)]);
    assert!(f.fits(5));
    assert!(!f.fits(6));
}

#[test]
fn withdraw_max_is_bounded_by_balance() {
    let mut f = ledger(&[(1, FundDescription::Waiting, 50), (2, FundDescription::Waiting, 50)]);
    let w = f.withdraw_max(1, FundType::Waiting, 80);
    assert_eq!(w, 50);
    assert_eq!(f.query_sum(Some(1), Some(FundType::Waiting)), 0);
    assert_eq!(f.query_sum(Some(2), Some(FundType::Waiting)), 50);
    assert_eq!(f.query_sum(None, None), 50);
    assert_eq!(f.buckets.len(), 1);
}

#[test]
fn withdraw_max_is_bounded_by_request() {
    let mut f = ledger(&[(1, FundDescription::Waiting, 50), (1, FundDescription::Waiting, 50)]);
    let w = f.withdraw_max(1, FundType::Waiting, 80);
    assert_eq!(w, 80);
    assert_eq!(f.buckets, vec![Bucket { owner: 1, desc: FundDescription::Waiting, amount: 20 }]);
}

#[test]
fn withdraw_max_of_nothing_changes_nothing() {
    let mut f = ledger(&[(1, FundDescription::Active, 50)]);
    assert_eq!(f.withdraw_max(1, FundType::Waiting, 80), 0);
    assert_eq!(f.withdraw_max(1, FundType::Active, 0), 0);
    assert_eq!(f.buckets, vec![Bucket { owner: 1, desc: FundDescription::Active, amount: 50 }]);
}

#[test]
fn split_convert_moves_exactly_the_requested_amount() {
    let mut f = ledger(&[(1, FundDescription::Waiting, 50), (2, FundDescription::Waiting, 50)]);
    let rule = Conversion { gate: None, target: Target::Fixed(FundDescription::Active) };
    let m = f.split_convert_max_by_type(Some(80), FundType::Waiting, rule);
    assert_eq!(m.moved, 80);
    assert_eq!(m.left, 0);
    assert_eq!(m.owners, vec![1, 2]);
    assert_eq!(f.query_sum(None, Some(FundType::Waiting)), 20);
    assert_eq!(f.query_sum(None, Some(FundType::Active)), 80);
    assert_eq!(
        f.buckets,
        vec![
            Bucket { owner: 2, desc: FundDescription::Waiting, amount: 20 },
            Bucket { owner: 1, desc: FundDescription::Active, amount: 50 },
            Bucket { owner: 2, desc: FundDescription::Active, amount: 30 },
        ]
    );
}

#[test]
fn split_convert_reports_what_it_could_not_move() {
    let mut f = ledger(&[(1, FundDescription::Waiting, 50), (2, FundDescription::Active, 50)]);
    let rule = Conversion { gate: None, target: Target::Fixed(FundDescription::Active) };
    let m = f.split_convert_max(Some(80), None, FundType::Waiting, rule);
    assert_eq!(m.moved, 50);
    assert_eq!(m.left, 30);
    assert_eq!(f.query_sum(None, Some(FundType::Active)), 100);
}

#[test]
fn split_convert_conserves_every_owner() {
    let mut f = ledger(&[
        (1, FundDescription::Waiting, 30),
        (2, FundDescription::Waiting, 40),
        (1, FundDescription::Active, 5),
        (3, FundDescription::Waiting, 50),
    ]);
    let rule = Conversion { gate: None, target: Target::Fixed(FundDescription::Active) };
    let _ = f.split_convert_max(Some(60), None, FundType::Waiting, rule);
    assert_eq!(f.query_sum(Some(1), None), 35);
    assert_eq!(f.query_sum(Some(2), None), 40);
    assert_eq!(f.query_sum(Some(3), None), 50);
    assert_eq!(f.query_sum(Some(1), Some(FundType::Active)), 35);
    assert_eq!(f.query_sum(Some(2), Some(FundType::Active)), 30);
    assert_eq!(f.query_sum(Some(2), Some(FundType::Waiting)), 10);
    assert_eq!(f.query_sum(Some(3), Some(FundType::Waiting)), 50);
    assert_eq!(f.query_sum(None, None), 125);
}

#[test]
fn split_convert_skips_buckets_that_fail_the_age_test() {
    let mut f = ledger(&[
        (1, FundDescription::UnStaked { created: 50 }, 10),
        (1, FundDescription::UnStaked { created: 10 }, 20),
        (1, FundDescription::Waiting, 5),
    ]);
    let rule = Conversion {
        gate: Some(AgeGate { now: 100, delay: 60 }),
        target: Target::SameTag(FundType::PendingUnBond),
    };
    let m = f.split_convert_max(Some(25), None, FundType::UnStaked, rule);
    assert_eq!(m.moved, 20);
    assert_eq!(m.left, 5);
    assert_eq!(
        f.buckets,
        vec![
            Bucket { owner: 1, desc: FundDescription::UnStaked { created: 50 }, amount: 10 },
            Bucket { owner: 1, desc: FundDescription::Waiting, amount: 5 },
            Bucket { owner: 1, desc: FundDescription::PendingUnBond { created: 10 }, amount: 20 },
        ]
    );
}

#[test]
fn split_convert_without_limit_moves_all_that_takes_part() {
    let mut f = ledger(&[(1, FundDescription::Waiting, 50), (2, FundDescription::Waiting, 70)]);
    let rule = Conversion { gate: None, target: Target::Fixed(FundDescription::Active) };
    let m = f.split_convert_max(None, Some(2), FundType::Waiting, rule);
    assert_eq!(m.moved, 70);
    assert_eq!(m.left, 0);
    assert_eq!(m.owners, vec![2]);
    assert_eq!(f.query_sum(Some(1), Some(FundType::Waiting)), 50);
}

#[test]
fn age_gate_is_strict() {
    let g = AgeGate { now: 100, delay: 60 };
    assert!(g.passes(39));
    assert!(!g.passes(40));
    assert!(!g.passes(u64::MAX));
    assert!(!AgeGate { now: 5, delay: 60 }.passes(0));
}

#[test]
fn conversion_apply_maps_descriptions() {
    let keep = Conversion::keeping_tag(FundType::DeferredPayment);
    assert_eq!(
        keep.apply(FundDescription::UnStaked { created: 9 }),
        Some(FundDescription::DeferredPayment { created: 9 })
    );
    assert_eq!(keep.apply(FundDescription::Waiting), None);
    assert_eq!(Conversion::keeping_tag(FundType::Active).apply(FundDescription::UnStaked { created: 9 }), None);
    let fixed = Conversion::into_fixed(FundDescription::Active);
    assert_eq!(fixed.apply(FundDescription::Waiting), Some(FundDescription::Active));
    assert_eq!(FundDescription::UnStaked { created: 3 }.fund_type(), FundType::UnStaked);
    assert_eq!(FundDescription::UnStaked { created: 3 }.created(), Some(3));
    assert_eq!(FundDescription::Active.created(), None);
    assert_eq!(FundType::Waiting.tagged(3), None);
}

#[test]
fn create_waiting_deposits_waiting_stake() {
    let mut f = FundModule::new();
    f.create_waiting(4, 100);
    assert_eq!(f.query_sum(Some(4), Some(FundType::Waiting)), 100);
}

#[test]
fn liquidate_free_stake_takes_withdraw_only_first() {
    let mut f = ledger(&[
        (1, FundDescription::Waiting, 50),
        (1, FundDescription::WithdrawOnly, 30),
        (1, FundDescription::Active, 100),
    ]);
    assert_eq!(f.liquidate_free_stake(1, 40), 0);
    assert_eq!(f.query_sum(Some(1), Some(FundType::WithdrawOnly)), 0);
    assert_eq!(f.query_sum(Some(1), Some(FundType::Waiting)), 40);
    assert_eq!(f.liquidate_free_stake(1, 100), 60);
    assert_eq!(f.query_sum(Some(1), None), 100);
}

#[test]
fn unstake_transf_rejects_more_than_the_active_stake() {
    let mut f = ledger(&[(1, FundDescription::Active, 50), (2, FundDescription::Active, 500)]);
    assert_eq!(f.unstake_transf(1, 51, 7), Err(Error::NotEnoughActiveStake));
    assert_eq!(f.query_sum(Some(1), Some(FundType::Active)), 50);
    assert_eq!(f.unstake_transf(1, 20, 7), Ok(()));
    assert_eq!(f.query_sum(Some(1), Some(FundType::Active)), 30);
    assert_eq!(f.query_sum(Some(1), Some(FundType::UnStaked)), 20);
    assert!(f.buckets.contains(&Bucket { owner: 1, desc: FundDescription::UnStaked { created: 7 }, amount: 20 }));
    assert_eq!(f.query_sum(Some(2), Some(FundType::Active)), 500);
}

#[test]
fn swap_waiting_to_active_lists_owners_once_in_order() {
    let mut f = ledger(&[
        (9, FundDescription::Waiting, 10),
        (3, FundDescription::Waiting, 10),
        (9, FundDescription::Waiting, 10),
        (5, FundDescription::Waiting, 10),
    ]);
    let (owners, left) = f.swap_waiting_to_active(30);
    assert_eq!(owners, vec![3, 9]);
    assert_eq!(left, 0);
    assert_eq!(f.query_sum(None, Some(FundType::Active)), 30);
    let (owners, left) = f.swap_waiting_to_active(30);
    assert_eq!(owners, vec![5]);
    assert_eq!(left, 20);
}

#[test]
fn swap_active_to_unstaked_tags_the_current_block() {
    let mut f = ledger(&[(2, FundDescription::Active, 10), (1, FundDescription::Active, 10)]);
    let (owners, left) = f.swap_active_to_unstaked(15, 77);
    assert_eq!(owners, vec![1, 2]);
    assert_eq!(left, 0);
    assert_eq!(
        f.buckets,
        vec![
            Bucket { owner: 1, desc: FundDescription::Active, amount: 5 },
            Bucket { owner: 2, desc: FundDescription::UnStaked { created: 77 }, amount: 10 },
            Bucket { owner: 1, desc: FundDescription::UnStaked { created: 77 }, amount: 5 },
        ]
    );
}

#[test]
fn swap_unstaked_to_deferred_payment_keeps_the_creation_block() {
    let mut f = ledger(&[(1, FundDescription::UnStaked { created: 4 }, 10)]);
    assert_eq!(f.swap_unstaked_to_deferred_payment(25), 15);
    assert_eq!(f.buckets, vec![Bucket { owner: 1, desc: FundDescription::DeferredPayment { created: 4 }, amount: 10 }]);
}

#[test]
fn deferred_payments_are_claimed_when_old_enough() {
    let mut f = ledger(&[
        (1, FundDescription::DeferredPayment { created: 10 }, 7),
        (1, FundDescription::DeferredPayment { created: 50 }, 9),
        (2, FundDescription::DeferredPayment { created: 10 }, 11),
    ]);
    assert_eq!(f.eligible_deferred_payment(1, 60, 100), 7);
    assert_eq!(f.eligible_deferred_payment(1, 60, 111), 16);
    assert_eq!(f.eligible_deferred_payment(1, 60, 70), 0);
    assert_eq!(f.claim_all_eligible_deferred_payments(1, 60, 100), 7);
    assert_eq!(f.query_sum(Some(1), Some(FundType::WithdrawOnly)), 7);
    assert_eq!(f.query_sum(Some(1), Some(FundType::DeferredPayment)), 9);
    assert_eq!(f.query_sum(Some(2), Some(FundType::DeferredPayment)), 11);
    assert_eq!(f.query_sum_funds_by_user_type(None, FundType::DeferredPayment, Conversion::into_fixed(FundDescription::Active)), 20);
}

#[test]
fn sorted_distinct_orders_and_removes_repeats() {
    assert_eq!(sorted_distinct(&vec![5, 1, 5, 3, 1]), vec![1, 3, 5]);
    assert_eq!(sorted_distinct(&Vec::new()), Vec::<usize>::new());
    let mut v = vec![1, 4];
    insert_sorted(&mut v, 2);
    insert_sorted(&mut v, 4);
    insert_sorted(&mut v, 9);
    assert_eq!(v, vec![1, 2, 4, 9]);
}

#[test]
fn split_convert_by_user_leaves_other_owners_alone() {
    let mut f = ledger(&[
        (1, FundDescription::Waiting, 50),
        (2, FundDescription::Waiting, 70),
        (2, FundDescription::Waiting, 5),
    ]);
    let rule = Conversion::into_fixed(FundDescription::Active);
    assert_eq!(f.split_convert_max_by_user(Some(72), 2, FundType::Waiting, rule), 72);
    assert_eq!(f.query_sum(Some(1), Some(FundType::Waiting)), 50);
    assert_eq!(f.query_sum(Some(2), Some(FundType::Waiting)), 3);
    assert_eq!(f.query_sum(Some(2), Some(FundType::Active)), 72);
    assert_eq!(f.split_convert_max_by_user(None, 1, FundType::Waiting, rule), 50);
    assert_eq!(f.split_convert_max_by_user(Some(9), 7, FundType::Waiting, rule), 0);
}

#[test]
fn owners_moved_are_listed_once() {
    let mut f = ledger(&[
        (4, FundDescription::Waiting, 1),
        (2, FundDescription::Waiting, 1),
        (4, FundDescription::Waiting, 1),
    ]);
    let rule = Conversion::into_fixed(FundDescription::Active);
    let m = f.split_convert_max(None, None, FundType::Waiting, rule);
    assert_eq!(m.owners, vec![2, 4]);
    assert_eq!(m.moved, 3);
    assert_eq!(m.left, 0);
}
