use vstd::prelude::*;

verus! {

/// Why a call was rejected. A rejected call leaves every value it was given
/// as it found it.
#[derive(Debug, Clone, Copy, PartialEq, Eq, Structural)]
pub enum LockupError {
    /// A schedule holds fewer than two checkpoints.
    TooFewCheckpoints,
    /// The first checkpoint of a schedule unlocks a balance other than zero.
    FirstBalanceNotZero,
    /// The timestamp of checkpoint number `checkpoint`, counted from zero, is
    /// not below that of the next one.
    TimestampNotIncreasing { checkpoint: usize },
    /// The balance of checkpoint number `checkpoint`, counted from zero, is
    /// above that of the next one.
    BalanceDecreasing { checkpoint: usize },
    /// The last checkpoint of a schedule unlocks nothing.
    ZeroTotalBalance,
    /// The total balance of a schedule differs from the balance that was transferred.
    TotalBalanceMismatch,
    /// The release schedule has unlocked more than the vesting schedule has
    /// vested at `timestamp`, which is the time of one of its own checkpoints.
    LockupAhead { timestamp: u128 },
    /// The vesting schedule has vested less than the release schedule has
    /// unlocked at `timestamp`, which is the time of one of its own checkpoints.
    TerminationAhead { timestamp: u128 },
    /// An argument broke what a constructor or a truncation takes for granted:
    /// an empty time range, a zero timestamp, or a new total above the old one.
    Invariant,
    /// The timestamp computed for a truncated schedule is above `u64::MAX`.
    TimestampOverflow,
    /// A new lockup already has a claimed balance.
    ClaimedBalanceNotZero,
    /// Claimed balance plus the requested amount does not fit in 128 bits.
    ClaimOverflow,
    /// The claim would take more than lockup `index` has unlocked.
    ClaimTooBig { index: u64 },
    /// The lockup cannot be terminated: it has no termination config.
    NoTerminationConfig,
    /// The vesting schedule was committed to by hash and was not revealed.
    RevealedScheduleRequired,
    /// The revealed schedule does not hash to the committed value.
    HashMismatch,
    /// The claims of one batch add up to more than fits in 128 bits.
    TotalOverflow,
    /// No lockup has this index, or the account has none with it.
    LockupNotFound { index: u64 },
    /// The termination timestamp lies before the current time.
    TerminationInPast,
}

} // verus!
