use ft_lockup::error::LockupError;
use ft_lockup::lockup::{Lockup, LockupClaim, LockupCreate};
use ft_lockup::schedule::{Checkpoint, Schedule};
use ft_lockup::termination::{TerminationConfig, VestingConditions};
use near_sdk::AccountId;

const ZERO_NEAR: u128 = 0;
const ONE_YOCTO: u128 = 1;
const ONE_NEAR: u128 = 1_000_000_000_000_000_000_000_000;

fn linear(total: u128) -> Schedule {
    Schedule(vec![
        Checkpoint { timestamp: 100, balance: 0 },
        Checkpoint { timestamp: 200, balance: total },
    ])
}

fn lockup_of(schedule: Schedule) -> Lockup {
    Lockup {
        account_id: "x.near".parse().unwrap(),
        schedule,
        claimed_balance: 0,
        termination_config: None,
    }
}

#[test]
fn test_lockup_new_unlocked_since() {
    let account_id: AccountId = "x.near".parse().unwrap();
    let total_balance = ONE_YOCTO;
    let timestamp = 1;
    let lockup = Lockup::new_unlocked_since(account_id.clone(), total_balance, timestamp).unwrap();
    assert_eq!(
        lockup,
        Lockup {
            account_id,
            schedule: Schedule::new_unlocked_since(total_balance, timestamp).unwrap(),
            claimed_balance: ZERO_NEAR,
            termination_config: None
        }
    );
    // Bonus check validity.
    assert_eq!(lockup.assert_valid(total_balance), Ok(()));
}

#[test]
fn test_lockup_new_unlocked_since_refusals() {
    let account_id: AccountId = "x.near".parse().unwrap();
    assert_eq!(
        Lockup::new_unlocked_since(account_id.clone(), ONE_NEAR, 0),
        Err(LockupError::Invariant)
    );
    assert_eq!(
        Lockup::new_unlocked_since(account_id.clone(), 0, 7),
        Err(LockupError::ZeroTotalBalance)
    );
}

#[test]
fn test_lockup_claim_success() {
    let account_id: AccountId = "x.near".parse().unwrap();
    let total_balance = ONE_YOCTO;
    let timestamp = 1;
    let mut lockup =
        Lockup::new_unlocked_since(account_id.clone(), total_balance, timestamp).unwrap();
    let claim = lockup.claim(0, ZERO_NEAR);
    assert_eq!(
        claim,
        Ok(LockupClaim { index: 0, claim_amount: ZERO_NEAR, is_final: false })
    );
}

#[test]
fn test_lockup_claim_fails_too_early() {
    let account_id: AccountId = "x.near".parse().unwrap();
    let total_balance = ONE_YOCTO;
    let timestamp = 1;
    let mut lockup =
        Lockup::new_unlocked_since(account_id.clone(), total_balance, timestamp).unwrap();
    assert_eq!(lockup.claim(0, ONE_YOCTO), Err(LockupError::ClaimTooBig { index: 0 }));
    assert_eq!(lockup.claimed_balance, 0);
}

#[test]
fn test_lockup_claim_at() {
    let mut lockup = lockup_of(linear(10_000));
    assert_eq!(lockup.unclaimed_balance(160), 6_000);
    assert_eq!(
        lockup.claim_at(3, 6_000, 160),
        Ok(LockupClaim { index: 3, claim_amount: 6_000, is_final: false })
    );
    assert_eq!(lockup.claimed_balance, 6_000);
    assert_eq!(lockup.unclaimed_balance(160), 0);
    assert_eq!(lockup.claim_at(3, 1, 160), Err(LockupError::ClaimTooBig { index: 3 }));
    assert_eq!(lockup.claimed_balance, 6_000);
    assert_eq!(lockup.claim_at(3, 4_001, 500), Err(LockupError::ClaimTooBig { index: 3 }));
    assert_eq!(
        lockup.claim_at(3, 4_000, 200),
        Ok(LockupClaim { index: 3, claim_amount: 4_000, is_final: true })
    );
    assert_eq!(lockup.claimed_balance, 10_000);
    assert_eq!(
        lockup.claim_at(3, 0, 200),
        Ok(LockupClaim { index: 3, claim_amount: 0, is_final: true })
    );
}

#[test]
fn test_lockup_claim_fails_overflow() {
    let mut lockup = lockup_of(linear(10_000));
    lockup.claimed_balance = 5;
    let before = lockup.clone();
    assert_eq!(lockup.claim_at(0, u128::MAX - 4, 200), Err(LockupError::ClaimOverflow));
    assert_eq!(lockup, before);
    assert_eq!(lockup.claim_at(0, u128::MAX - 5, 200), Err(LockupError::ClaimTooBig { index: 0 }));
    assert_eq!(lockup, before);
}

#[test]
fn test_lockup_revert_claim_restores() {
    for (claimed, amount, now) in [(0u128, 6_000u128, 160u128), (1_000, 0, 110), (2_500, 7_500, 300)] {
        let mut lockup = lockup_of(linear(10_000));
        lockup.claimed_balance = claimed;
        let before = lockup.clone();
        let claim = lockup.claim_at(9, amount, now).unwrap();
        assert_eq!(lockup.claimed_balance, claimed + amount);
        lockup.revert_claim(claim.claim_amount);
        assert_eq!(lockup, before);
    }
    // taking back more than was claimed stops at nothing claimed
    let mut lockup = lockup_of(linear(10_000));
    lockup.claimed_balance = 10;
    lockup.revert_claim(11);
    assert_eq!(lockup.claimed_balance, 0);
    lockup.revert_claim(u128::MAX);
    assert_eq!(lockup.claimed_balance, 0);
}

#[test]
fn test_assert_valid_fails_initial_claimed() {
    let total_balance = ONE_YOCTO;
    let timestamp = 1;
    let lockup = Lockup {
        account_id: "x.near".parse().unwrap(),
        schedule: Schedule::new_unlocked_since(total_balance, timestamp).unwrap(),
        claimed_balance: ONE_NEAR,
        termination_config: None,
    };
    assert_eq!(lockup.assert_valid(total_balance), Err(LockupError::ClaimedBalanceNotZero));
}

#[test]
fn test_assert_valid_hashed_schedule() {
    let account_id: AccountId = "x.near".parse().unwrap();
    let total_balance = ONE_YOCTO;
    let timestamp = 1;
    let schedule = Schedule::new_unlocked_since(total_balance, timestamp).unwrap();
    let lockup = Lockup {
        account_id: account_id.clone(),
        schedule: schedule.clone(),
        claimed_balance: ZERO_NEAR,
        termination_config: Some(TerminationConfig {
            beneficiary_id: account_id,
            vesting_schedule: VestingConditions::Hash(schedule.hash()),
        }),
    };
    assert_eq!(lockup.assert_valid(total_balance), Ok(()));
}

#[test]
fn test_assert_valid_alt_schedule() {
    let account_id: AccountId = "x.near".parse().unwrap();
    let total_balance = ONE_YOCTO;
    let timestamp = 1;
    let schedule = Schedule::new_unlocked_since(total_balance, timestamp).unwrap();
    let lockup = Lockup {
        account_id: account_id.clone(),
        schedule: schedule.clone(),
        claimed_balance: ZERO_NEAR,
        termination_config: Some(TerminationConfig {
            beneficiary_id: account_id,
            vesting_schedule: VestingConditions::Schedule(schedule),
        }),
    };
    assert_eq!(lockup.assert_valid(total_balance), Ok(()));
}

#[test]
fn test_assert_valid_checks_the_vesting_schedule() {
    let account_id: AccountId = "x.near".parse().unwrap();
    let with_vesting = |vesting: Schedule| Lockup {
        account_id: account_id.clone(),
        schedule: linear(10),
        claimed_balance: 0,
        termination_config: Some(TerminationConfig {
            beneficiary_id: account_id.clone(),
            vesting_schedule: VestingConditions::Schedule(vesting),
        }),
    };
    // the vesting schedule must release the same total
    assert_eq!(
        with_vesting(linear(11)).assert_valid(10),
        Err(LockupError::TotalBalanceMismatch)
    );
    assert_eq!(with_vesting(Schedule(vec![])).assert_valid(10), Err(LockupError::TooFewCheckpoints));
    // vesting later than releasing is refused
    let late = Schedule(vec![
        Checkpoint { timestamp: 150, balance: 0 },
        Checkpoint { timestamp: 250, balance: 10 },
    ]);
    assert_eq!(
        with_vesting(late).assert_valid(10),
        Err(LockupError::LockupAhead { timestamp: 200 })
    );
    let early = Schedule(vec![
        Checkpoint { timestamp: 50, balance: 0 },
        Checkpoint { timestamp: 150, balance: 10 },
    ]);
    assert_eq!(with_vesting(early).assert_valid(10), Ok(()));
    // the release schedule is checked first
    assert_eq!(
        with_vesting(linear(11)).assert_valid(11),
        Err(LockupError::TotalBalanceMismatch)
    );
    // a hash is taken on trust until the schedule is revealed
    let hashed = Lockup {
        account_id: account_id.clone(),
        schedule: linear(10),
        claimed_balance: 0,
        termination_config: Some(TerminationConfig {
            beneficiary_id: account_id.clone(),
            vesting_schedule: VestingConditions::Hash([7; 32]),
        }),
    };
    assert_eq!(hashed.assert_valid(10), Ok(()));
    assert!(hashed.is_well_formed());
}

#[test]
fn test_lockup_create_into_lockup() {
    // env is working on a fresh blockchain starting from time 0
    let account_id: AccountId = "x.near".parse().unwrap();
    let beneficiary_id: AccountId = "p.near".parse().unwrap();
    let total_balance = ONE_YOCTO;
    let timestamp = 1;
    let schedule = Schedule::new_unlocked_since(total_balance, timestamp).unwrap();
    let lockup_create = LockupCreate {
        account_id: account_id.clone(),
        schedule: schedule.clone(),
        vesting_schedule: Some(VestingConditions::SameAsLockupSchedule),
    };
    let lockup = lockup_create.into_lockup(&beneficiary_id).unwrap();
    assert_eq!(
        lockup,
        Lockup {
            account_id,
            schedule,
            claimed_balance: ZERO_NEAR,
            termination_config: Some(TerminationConfig {
                beneficiary_id,
                vesting_schedule: VestingConditions::SameAsLockupSchedule
            })
        }
    );
}

#[test]
fn test_lockup_create_into_lockup_refusals() {
    let account_id: AccountId = "x.near".parse().unwrap();
    let payer: AccountId = "p.near".parse().unwrap();
    let request = |schedule: Schedule, vesting_schedule: Option<VestingConditions>| LockupCreate {
        account_id: account_id.clone(),
        schedule,
        vesting_schedule,
    };
    assert_eq!(request(Schedule(vec![]), None).into_lockup(&payer), Err(LockupError::TooFewCheckpoints));
    assert_eq!(
        request(Schedule::new_zero_balance_from_to(1, 2).unwrap(), None).into_lockup(&payer),
        Err(LockupError::ZeroTotalBalance)
    );
    assert_eq!(
        request(linear(10), Some(VestingConditions::Schedule(linear(9)))).into_lockup(&payer),
        Err(LockupError::TotalBalanceMismatch)
    );
    let plain = request(linear(10), None).into_lockup(&payer).unwrap();
    assert_eq!(plain.termination_config, None);
    assert_eq!(plain.claimed_balance, 0);
}

#[test]
fn test_lockup_create_new_unlocked() {
    let account_id: AccountId = "x.near".parse().unwrap();
    let request = LockupCreate::new_unlocked(account_id.clone(), 44).unwrap();
    assert_eq!(
        request,
        LockupCreate {
            account_id: account_id.clone(),
            schedule: Schedule(vec![
                Checkpoint { timestamp: 0, balance: 0 },
                Checkpoint { timestamp: 1, balance: 44 },
            ]),
            vesting_schedule: None,
        }
    );
    assert_eq!(request.clone(), request);
    assert_eq!(LockupCreate::new_unlocked(account_id, 0), Err(LockupError::ZeroTotalBalance));
}
