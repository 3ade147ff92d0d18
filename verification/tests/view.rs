use ft_lockup::contract::Contract;
use ft_lockup::error::LockupError;
use ft_lockup::ft_token_receiver::FtMessage;
use ft_lockup::index_set::IndexSet;
use ft_lockup::lockup::{Lockup, LockupCreate};
use ft_lockup::schedule::{Checkpoint, Schedule};
use ft_lockup::termination::{TerminationConfig, VestingConditions};
use ft_lockup::view::{LockupCreateView, LockupView};
use near_sdk::AccountId;

const ZERO_NEAR: u128 = 0;
const ONE_NEAR: u128 = 1_000_000_000_000_000_000_000_000;
const ONE_YEAR_SEC: u128 = 365 * 24 * 60 * 60;

fn alice() -> AccountId {
    "alice.near".parse().unwrap()
}

fn lockup(total: u128) -> Lockup {
    Lockup {
        account_id: alice(),
        schedule: Schedule(vec![
            Checkpoint { timestamp: 100, balance: 0 },
            Checkpoint { timestamp: 200, balance: total },
        ]),
        claimed_balance: 0,
        termination_config: None,
    }
}

fn ledger() -> Contract {
    let mut contract = Contract::new();
    let mut indices = IndexSet::new();
    for total in [10u128, 20, 30, 40] {
        contract.internal_add_lockup(lockup(total), &mut indices);
    }
    contract
}

fn lockup_vesting_schedule_2(amount: u128) -> (Schedule, Schedule) {
    let lockup_schedule = Schedule(vec![
        Checkpoint { timestamp: ONE_YEAR_SEC * 2, balance: ZERO_NEAR },
        Checkpoint { timestamp: ONE_YEAR_SEC * 4, balance: amount * 3 / 4 },
        Checkpoint { timestamp: ONE_YEAR_SEC * 4 + 1, balance: amount },
    ]);
    let vesting_schedule = Schedule(vec![
        Checkpoint { timestamp: ONE_YEAR_SEC - 1, balance: ZERO_NEAR },
        Checkpoint { timestamp: ONE_YEAR_SEC, balance: amount / 4 },
        Checkpoint { timestamp: ONE_YEAR_SEC * 4, balance: amount },
    ]);
    (lockup_schedule, vesting_schedule)
}

#[test]
fn view_test_nano_to_sec() {
    let account_id = "x.near".parse().unwrap();
    let amount = 10_000 * ONE_NEAR;
    let schedule = Schedule(vec![
        Checkpoint { timestamp: 100, balance: ZERO_NEAR },
        Checkpoint { timestamp: 200, balance: amount },
    ]);
    assert_eq!(schedule.assert_valid(amount), Ok(()));
    let lockup_create =
        LockupCreate { account_id, schedule: schedule.clone(), vesting_schedule: None };
    let lockup_view = LockupCreateView::from(lockup_create);
    assert_eq!(lockup_view.total_balance, amount);
    assert_eq!(lockup_view.claimed_balance, ZERO_NEAR);
    assert_eq!(lockup_view.unclaimed_balance, ZERO_NEAR);
}

#[test]
fn test_lockup_create_view_at() {
    let schedule = Schedule(vec![
        Checkpoint { timestamp: 100, balance: 0 },
        Checkpoint { timestamp: 200, balance: 1_000 },
    ]);
    let request = LockupCreate {
        account_id: alice(),
        schedule: schedule.clone(),
        vesting_schedule: Some(VestingConditions::SameAsLockupSchedule),
    };
    let view = LockupCreateView::at(request, 125);
    assert_eq!(view.account_id, alice());
    assert_eq!(view.schedule, schedule);
    assert_eq!(view.vesting_schedule, Some(VestingConditions::SameAsLockupSchedule));
    assert_eq!(view.claimed_balance, 0);
    assert_eq!(view.total_balance, 1_000);
    assert_eq!(view.unclaimed_balance, 250);
    assert_eq!(view.timestamp, 125);
}

#[test]
fn test_lockup_view_at() {
    let mut shown = lockup(1_000);
    shown.claimed_balance = 100;
    shown.termination_config = Some(TerminationConfig {
        beneficiary_id: "payer.near".parse().unwrap(),
        vesting_schedule: VestingConditions::Hash([3; 32]),
    });
    let view = LockupView::at(shown.clone(), 125);
    assert_eq!(view.account_id, shown.account_id);
    assert_eq!(view.schedule, shown.schedule);
    assert_eq!(view.claimed_balance, 100);
    assert_eq!(view.termination_config, shown.termination_config);
    assert_eq!(view.total_balance, 1_000);
    assert_eq!(view.unclaimed_balance, 150);
    assert_eq!(view.timestamp, 125);
    // more claimed than unlocked shows as nothing to claim
    assert_eq!(LockupView::at(shown.clone(), 105).unclaimed_balance, 0);
    // the first block is at time 0
    let view = LockupView::from(shown);
    assert_eq!(view.timestamp, 0);
    assert_eq!(view.unclaimed_balance, 0);
}

#[test]
fn test_hash_schedule() {
    let contract = Contract::new();
    let amount = 60_000 * ONE_NEAR;
    let (lockup_schedule, vesting_schedule) = lockup_vesting_schedule_2(amount);
    assert_eq!(
        contract.hash_schedule(vesting_schedule.clone()),
        contract.hash_schedule(vesting_schedule.clone())
    );
    assert_ne!(
        contract.hash_schedule(vesting_schedule.clone()),
        contract.hash_schedule(lockup_schedule),
    );
    assert_eq!(contract.hash_schedule(vesting_schedule.clone()), vesting_schedule.hash());
}

#[test]
fn test_validate_schedule() {
    let contract = Contract::new();
    let amount = 60_000 * ONE_NEAR;
    let (lockup_schedule, vesting_schedule) = lockup_vesting_schedule_2(amount);

    assert_eq!(
        contract.validate_schedule(lockup_schedule.clone(), amount, Some(vesting_schedule)),
        Ok(())
    );

    let incompatible_vesting_schedule = Schedule(vec![
        Checkpoint { timestamp: ONE_YEAR_SEC * 4, balance: ZERO_NEAR },
        Checkpoint { timestamp: ONE_YEAR_SEC * 4 + 1, balance: amount },
    ]);
    assert_eq!(
        contract.validate_schedule(lockup_schedule, amount, Some(incompatible_vesting_schedule)),
        Err(LockupError::LockupAhead { timestamp: 126144000 })
    );
}

#[test]
fn test_validate_schedule_order_of_checks() {
    let contract = Contract::new();
    let good = lockup(10).schedule;
    let other_total = lockup(11).schedule;
    assert_eq!(contract.validate_schedule(good.clone(), 10, None), Ok(()));
    assert_eq!(
        contract.validate_schedule(good.clone(), 11, None),
        Err(LockupError::TotalBalanceMismatch)
    );
    assert_eq!(
        contract.validate_schedule(Schedule(vec![]), 10, Some(other_total.clone())),
        Err(LockupError::TooFewCheckpoints)
    );
    assert_eq!(
        contract.validate_schedule(good.clone(), 10, Some(other_total)),
        Err(LockupError::TotalBalanceMismatch)
    );
    let behind = Schedule(vec![
        Checkpoint { timestamp: 100, balance: 0 },
        Checkpoint { timestamp: 150, balance: 0 },
        Checkpoint { timestamp: 200, balance: 10 },
    ]);
    assert_eq!(
        contract.validate_schedule(good.clone(), 10, Some(behind.clone())),
        Err(LockupError::TerminationAhead { timestamp: 150 })
    );
    assert_eq!(contract.validate_schedule(behind, 10, Some(good)), Ok(()));
}

#[test]
fn test_get_lockups() {
    let users: Vec<AccountId> =
        ["alice.near", "bob.near", "charlie.near"].iter().map(|id| id.parse().unwrap()).collect();
    let owner: AccountId = "owner.near".parse().unwrap();
    let amount = ONE_NEAR;
    let mut contract = Contract::new();
    let mut indices: Vec<IndexSet> = vec![IndexSet::new(), IndexSet::new(), IndexSet::new()];
    assert!(contract.get_account_lockups(&indices[0]).is_empty());

    // create some lockups
    for (user, set) in users.iter().zip(indices.iter_mut()) {
        let request = LockupCreate::new_unlocked(user.clone(), amount).unwrap();
        let created = contract
            .ft_on_transfer(set, &owner, amount, FtMessage::LockupCreate(request))
            .unwrap();
        assert_eq!(created.balance, amount);
    }

    // get_num_lockups
    let num_lockups = contract.get_num_lockups();
    assert_eq!(num_lockups, 3);

    // get_lockups by indices
    let res = contract.get_lockups(vec![2, 0]);
    assert_eq!(res.len(), 2);
    assert_eq!(res[0].1.account_id, users[2]);
    assert_eq!(res[1].1.account_id, users[0]);

    // get_lockups_paged from to
    let res = contract.get_lockups_paged(Some(1), Some(2));
    assert_eq!(res.len(), 1);
    assert_eq!(res[0].1.account_id, users[1]);

    // get_lockups_paged from
    let res = contract.get_lockups_paged(Some(1), None);
    assert_eq!(res.len(), 2);
    assert_eq!(res[0].1.account_id, users[1]);
    assert_eq!(res[1].1.account_id, users[2]);

    // get_lockups_paged to
    let res = contract.get_lockups_paged(None, Some(2));
    assert_eq!(res.len(), 2);
    assert_eq!(res[0].1.account_id, users[0]);
    assert_eq!(res[1].1.account_id, users[1]);

    // get_lockups_paged all
    let res = contract.get_lockups_paged(None, None);
    assert_eq!(res.len(), 3);
    assert_eq!(res[0].1.account_id, users[0]);
    assert_eq!(res[1].1.account_id, users[1]);
    assert_eq!(res[2].1.account_id, users[2]);

    // each account lists its own lockup
    for (i, set) in indices.iter().enumerate() {
        let res = contract.get_account_lockups(set);
        assert_eq!(res.len(), 1);
        assert_eq!(res[0].0, i as u64);
        assert_eq!(res[0].1.account_id, users[i]);
    }
}

#[test]
fn test_get_lockups_pages_and_times() {
    let contract = ledger();
    assert_eq!(contract.get_num_lockups(), 4);
    assert!(contract.get_lockup_at(4, 150).is_none());
    let view = contract.get_lockup_at(3, 150).unwrap();
    assert_eq!(view.total_balance, 40);
    assert_eq!(view.unclaimed_balance, 20);
    assert_eq!(view.timestamp, 150);

    let totals = |views: Vec<(u64, LockupView)>| -> Vec<(u64, u128)> {
        views.into_iter().map(|(index, view)| (index, view.total_balance)).collect()
    };
    // indices without a lockup are passed over, the order is kept
    assert_eq!(
        totals(contract.get_lockups_at(vec![3, 9, 0, 3, 4], 150)),
        vec![(3, 40), (0, 10), (3, 40)]
    );
    assert_eq!(totals(contract.get_lockups_at(vec![], 150)), vec![]);
    assert_eq!(totals(contract.get_lockups(vec![1])), vec![(1, 20)]);

    assert_eq!(
        totals(contract.get_lockups_paged_at(None, None, 150)),
        vec![(0, 10), (1, 20), (2, 30), (3, 40)]
    );
    assert_eq!(totals(contract.get_lockups_paged_at(Some(2), None, 150)), vec![(2, 30), (3, 40)]);
    // the limit is the index at which the page ends
    assert_eq!(totals(contract.get_lockups_paged_at(Some(1), Some(3), 150)), vec![(1, 20), (2, 30)]);
    assert_eq!(
        totals(contract.get_lockups_paged_at(None, Some(100), 150)),
        vec![(0, 10), (1, 20), (2, 30), (3, 40)]
    );
    assert_eq!(totals(contract.get_lockups_paged_at(Some(3), Some(3), 150)), vec![]);
    assert_eq!(totals(contract.get_lockups_paged_at(Some(7), Some(2), 150)), vec![]);
    assert_eq!(totals(contract.get_lockups_paged(Some(3), None)), vec![(3, 40)]);

    let indices = IndexSet::from_vec(vec![2, 1]);
    let views = contract.get_account_lockups(&indices);
    assert_eq!(views.len(), 2);
    assert_eq!(views[0].0, 1);
    assert_eq!(views[1].0, 2);
    assert_eq!(views[1].1.unclaimed_balance, 0);
    assert_eq!(views[1].1.timestamp, 0);
    assert!(contract.get_lockup(0).is_some());
    assert!(contract.get_lockup(4).is_none());
}
