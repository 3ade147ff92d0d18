use vstd::prelude::*;

verus! {

/// The number of nanoseconds in a second.
pub const NANOS_PER_SEC: u64 = 1_000_000_000;

/// The latest time, in seconds, that a block can carry.
pub const MAX_BLOCK_TIME_SEC: u128 = 18_446_744_073;

/// Calls `near_sdk::env::block_timestamp`, which gives the time of the block
/// being produced, in nanoseconds since the epoch. Nothing is known of it
/// beforehand.
#[verifier::external_body]
fn block_timestamp() -> (nanos: u64) {
    near_sdk::env::block_timestamp()
}

/// Whole seconds in a time given in nanoseconds.
pub fn nano_to_sec(timestamp: u64) -> (sec: u128)
    ensures
        sec == timestamp / NANOS_PER_SEC,
        sec <= MAX_BLOCK_TIME_SEC,
{
    (timestamp / NANOS_PER_SEC) as u128
}

/// The time of the current block in whole seconds since the epoch.
pub fn current_timestamp_sec() -> (sec: u128)
    ensures
        sec <= MAX_BLOCK_TIME_SEC,
{
    nano_to_sec(block_timestamp())
}

} // verus!
