use ft_lockup::events::FtLockupCreateLockup;
use ft_lockup::lockup::{Lockup, LockupIndex};
use ft_lockup::schedule::{Checkpoint, Schedule};
use ft_lockup::termination::{TerminationConfig, VestingConditions};
use near_sdk::AccountId;

#[test]
fn events_test_ft_lockup_create_lockup() {
    let account_id: AccountId = "alice.near".parse().unwrap();
    let balance: u128 = 10_000;
    let timestamp: u128 = 1_500_000_000;
    let lockup = Lockup::new_unlocked_since(account_id.clone(), balance, timestamp).unwrap();
    let lockup_id: LockupIndex = 100;

    let event = FtLockupCreateLockup::from((100, lockup));
    assert_eq!(
        event,
        FtLockupCreateLockup {
            id: lockup_id,
            account_id,
            balance,
            start: timestamp - 1,
            finish: timestamp,
            terminatable: false,
        }
    );
}

#[test]
fn event_test_ft_lockup_create_lockup() {
    let account_id: AccountId = "alice.near".parse().unwrap();
    let balance: u128 = 10_000;
    let timestamp: u128 = 1_500_000_000;
    let lockup = Lockup::new_unlocked_since(account_id.clone(), balance, timestamp).unwrap();
    let lockup_id: LockupIndex = 100;

    let event = FtLockupCreateLockup::from((100, lockup));
    assert_eq!(event.id, lockup_id);
    assert_eq!(event.account_id, account_id);
    assert_eq!(event.balance, balance);
    assert_eq!(event.start, timestamp - 1);
    assert_eq!(event.finish, timestamp);
    assert!(!event.terminatable);
}

#[test]
fn test_create_event_of_a_terminable_lockup() {
    let account_id: AccountId = "alice.near".parse().unwrap();
    let lockup = Lockup {
        account_id: account_id.clone(),
        schedule: Schedule(vec![
            Checkpoint { timestamp: 5, balance: 0 },
            Checkpoint { timestamp: 10, balance: 20 },
            Checkpoint { timestamp: 30, balance: 70 },
        ]),
        claimed_balance: 3,
        termination_config: Some(TerminationConfig {
            beneficiary_id: "bob.near".parse().unwrap(),
            vesting_schedule: VestingConditions::SameAsLockupSchedule,
        }),
    };
    assert_eq!(
        FtLockupCreateLockup::from((2, lockup)),
        FtLockupCreateLockup {
            id: 2,
            account_id,
            balance: 70,
            start: 5,
            finish: 30,
            terminatable: true,
        }
    );
}
