//! What holds of every schedule, proved from the definitions in `schedule`.

use vstd::prelude::*;
use crate::math::{
    lemma_ceil_then_floor, lemma_floor_slope_order, lemma_mul_div_ceil_bounds,
    lemma_mul_div_ceil_covers, lemma_mul_div_floor_bounds, lemma_mul_div_floor_monotone,
};
use crate::schedule::{
    cut_of, in_segment, interpolate, is_cut, is_schedule, is_schedule_for,
    lemma_cut_unique, lemma_segment_unique, lemma_validation_ok, release_lags_at,
    terminated, termination_check, termination_error,
    termination_time, unlocked_at, unlocked_since_schedule, validation,
    vesting_leads_at, Checkpoint,
};

verus! {

/// On the line between two checkpoints in order, the balance starts at that
/// of the first and never leaves the range between the two.
pub proof fn lemma_interpolate_bounds(a: Checkpoint, b: Checkpoint, t: int)
    requires
        a.timestamp < b.timestamp,
        a.balance <= b.balance,
        a.timestamp <= t <= b.timestamp,
    ensures
        a.balance <= interpolate(a, b, t) <= b.balance,
        t == a.timestamp ==> interpolate(a, b, t) == a.balance,
        t == b.timestamp ==> interpolate(a, b, t) == b.balance,
{
    lemma_mul_div_floor_bounds(
        t - a.timestamp,
        b.balance - a.balance,
        b.timestamp - a.timestamp,
    );
}

/// On the line between two checkpoints in order, a later time gives no
/// smaller balance.
pub proof fn lemma_interpolate_monotone(a: Checkpoint, b: Checkpoint, t1: int, t2: int)
    requires
        a.timestamp < b.timestamp,
        a.balance <= b.balance,
        t1 <= t2,
    ensures
        interpolate(a, b, t1) <= interpolate(a, b, t2),
{
    lemma_mul_div_floor_monotone(
        t1 - a.timestamp,
        t2 - a.timestamp,
        b.balance - a.balance,
        b.timestamp - a.timestamp,
    );
}

/// A time from checkpoint `k` on and before the last checkpoint falls in a
/// segment.
pub proof fn lemma_segment_exists(s: Seq<Checkpoint>, t: int, k: int) -> (i: int)
    requires
        0 <= k < s.len() - 1,
        s[k].timestamp <= t < s.last().timestamp,
    ensures
        in_segment(s, i, t),
    decreases s.len() - k,
{
    if t < s[k + 1].timestamp {
        k
    } else {
        lemma_segment_exists(s, t, k + 1)
    }
}

/// A balance above that of checkpoint `k` and not above the last is reached
/// in a segment.
pub proof fn lemma_cut_exists(s: Seq<Checkpoint>, x: int, k: int) -> (i: int)
    requires
        0 <= k < s.len() - 1,
        s[k].balance < x <= s.last().balance,
    ensures
        is_cut(s, i, x),
    decreases s.len() - k,
{
    if x <= s[k + 1].balance {
        k
    } else {
        lemma_cut_exists(s, x, k + 1)
    }
}

/// The unlocked balance lies between zero and the total balance at all times.
pub proof fn lemma_unlocked_bounded(s: Seq<Checkpoint>, t: int)
    requires
        is_schedule(s),
    ensures
        0 <= unlocked_at(s, t) <= s.last().balance,
{
    if s[0].timestamp <= t < s.last().timestamp {
        let i = lemma_segment_exists(s, t, 0);
        lemma_segment_unique(s, i, t);
        lemma_interpolate_bounds(s[i], s[i + 1], t);
        assert(s[i + 1].balance <= s.last().balance);
    }
}

/// The unlocked balance never decreases as time goes on.
pub proof fn lemma_unlocked_monotone(s: Seq<Checkpoint>, t1: int, t2: int)
    requires
        is_schedule(s),
        t1 <= t2,
    ensures
        unlocked_at(s, t1) <= unlocked_at(s, t2),
{
    lemma_unlocked_bounded(s, t1);
    lemma_unlocked_bounded(s, t2);
    if s[0].timestamp <= t1 && t2 < s.last().timestamp {
        let i1 = lemma_segment_exists(s, t1, 0);
        let i2 = lemma_segment_exists(s, t2, 0);
        lemma_segment_unique(s, i1, t1);
        lemma_segment_unique(s, i2, t2);
        if i1 == i2 {
            lemma_interpolate_monotone(s[i1], s[i1 + 1], t1, t2);
        } else {
            if i2 < i1 {
                assert(s[i2 + 1].timestamp <= s[i1].timestamp);
            }
            lemma_interpolate_bounds(s[i1], s[i1 + 1], t1);
            lemma_interpolate_bounds(s[i2], s[i2 + 1], t2);
            assert(s[i1 + 1].balance <= s[i2].balance);
        }
    }
}

/// At the exact time of a checkpoint the unlocked balance is that
/// checkpoint's balance: nothing is lost to rounding there.
pub proof fn lemma_unlocked_at_checkpoint(s: Seq<Checkpoint>, i: int)
    requires
        is_schedule(s),
        0 <= i < s.len(),
    ensures
        unlocked_at(s, s[i].timestamp as int) == s[i].balance,
{
    let t = s[i].timestamp as int;
    if i < s.len() - 1 {
        assert(s[0].timestamp <= s[i].timestamp);
        assert(in_segment(s, i, t));
        lemma_segment_unique(s, i, t);
        lemma_interpolate_bounds(s[i], s[i + 1], t);
    }
}

/// The time at which a schedule cut down to `x` ends is after the start of
/// the schedule and not after its old end, unless the schedule was emptied.
pub proof fn lemma_termination_time_bounds(s: Seq<Checkpoint>, x: u128, hint: u128)
    requires
        is_schedule(s),
        0 < x <= s.last().balance,
    ensures
        is_cut(s, cut_of(s, x as int), x as int),
        s[cut_of(s, x as int)].timestamp < termination_time(s, x, hint) <= s[cut_of(s, x as int)
            + 1].timestamp,
{
    let i = lemma_cut_exists(s, x as int, 0);
    lemma_cut_unique(s, i, x as int);
    assert(s[i].timestamp < s[i + 1].timestamp);
    lemma_mul_div_ceil_bounds(
        x - s[i].balance,
        s[i + 1].timestamp - s[i].timestamp,
        s[i + 1].balance - s[i].balance,
    );
}

/// A schedule that was cut down to `x` has unlocked exactly `x` from its new
/// last checkpoint on.
pub proof fn lemma_terminated_unlocks_total(s: Seq<Checkpoint>, x: u128, hint: u128, t: int)
    requires
        is_schedule(s),
        termination_error(s, x, hint) is None,
        t >= termination_time(s, x, hint),
    ensures
        terminated(s, x, hint).last().timestamp == termination_time(s, x, hint),
        unlocked_at(terminated(s, x, hint), t) == x,
{
    if x == 0 {
        assert(s[0].timestamp < s[1].timestamp);
    } else {
        lemma_termination_time_bounds(s, x, hint);
    }
}

/// A schedule that was cut down to a total that it could reach is a schedule
/// still, and releases that total.
pub proof fn lemma_terminated_is_schedule(s: Seq<Checkpoint>, x: u128, hint: u128)
    requires
        is_schedule(s),
        x <= s.last().balance,
    ensures
        is_schedule(terminated(s, x, hint)),
        terminated(s, x, hint).last().balance == x,
        terminated(s, x, hint)[0] == s[0],
{
    let r = terminated(s, x, hint);
    if x == 0 {
        assert(s[0].timestamp < s[1].timestamp);
    } else {
        lemma_termination_time_bounds(s, x, hint);
        let i = cut_of(s, x as int);
        assert forall|a: int, b: int| 0 <= a < b < r.len() implies r[a].timestamp
            < r[b].timestamp by {
            if b < r.len() - 1 {
                assert(r[a] == s[a] && r[b] == s[b]);
            } else {
                assert(r[a] == s[a]);
                assert(s[a].timestamp <= s[i].timestamp);
            }
        }
        assert forall|a: int, b: int| 0 <= a <= b < r.len() implies r[a].balance
            <= r[b].balance by {
            if b < r.len() - 1 {
                assert(r[a] == s[a] && r[b] == s[b]);
            } else if a < r.len() - 1 {
                assert(r[a] == s[a]);
                assert(s[a].balance <= s[i].balance);
            }
        }
        assert(r[0] == s[0]);
    }
}

/// A schedule that was cut down never has unlocked more than it had before
/// the cut: the time of the new last checkpoint is rounded up to that end.
pub proof fn lemma_terminated_never_ahead(s: Seq<Checkpoint>, x: u128, hint: u128, t: int)
    requires
        is_schedule(s),
        x <= s.last().balance,
    ensures
        unlocked_at(terminated(s, x, hint), t) <= unlocked_at(s, t),
{
    let r = terminated(s, x, hint);
    lemma_terminated_is_schedule(s, x, hint);
    lemma_unlocked_bounded(s, t);
    lemma_unlocked_bounded(r, t);
    if x > 0 && t >= s[0].timestamp {
        lemma_termination_time_bounds(s, x, hint);
        let i = cut_of(s, x as int);
        let end = termination_time(s, x, hint);
        let gained = x - s[i].balance;
        let width = s[i + 1].timestamp - s[i].timestamp;
        let height = s[i + 1].balance - s[i].balance;
        assert(r.last().timestamp == end);
        assert(r[i] == s[i]);
        if t >= end {
            if t < s.last().timestamp {
                let j = lemma_segment_exists(s, t, 0);
                lemma_segment_unique(s, j, t);
                lemma_interpolate_bounds(s[j], s[j + 1], t);
                if j < i {
                    assert(s[j + 1].timestamp <= s[i].timestamp);
                } else if j == i {
                    lemma_ceil_then_floor(gained, width, height, t - s[i].timestamp);
                } else {
                    assert(s[i + 1].balance <= s[j].balance);
                }
            }
        } else {
            let j = lemma_segment_exists(r, t, 0);
            lemma_segment_unique(r, j, t);
            if j < i {
                assert(r[j] == s[j] && r[j + 1] == s[j + 1]);
                assert(in_segment(s, j, t));
                lemma_segment_unique(s, j, t);
            } else {
                assert(j == i);
                assert(in_segment(s, i, t));
                lemma_segment_unique(s, i, t);
                lemma_mul_div_ceil_covers(gained, width, height);
                lemma_floor_slope_order(
                    t - s[i].timestamp,
                    gained,
                    end - s[i].timestamp,
                    height,
                    width,
                );
            }
        }
    }
}

/// The schedule that unlocks a positive balance at a positive time at once
/// passes validation against that balance.
pub proof fn lemma_unlocked_since_valid(total: u128, timestamp: u128)
    requires
        total > 0,
        timestamp > 0,
    ensures
        validation(unlocked_since_schedule(total, timestamp), total) is Ok,
{
    let s = unlocked_since_schedule(total, timestamp);
    assert(is_schedule_for(s, total));
    lemma_validation_ok(s, total);
}

/// The two-sided check passes exactly when the release schedule has unlocked
/// no more than the vesting schedule has vested at the time of every
/// checkpoint of either schedule. So it rejects a pair as soon as the release
/// schedule is strictly ahead at one of those times.
pub proof fn lemma_termination_check_sides(release: Seq<Checkpoint>, vesting: Seq<Checkpoint>)
    requires
        is_schedule(release),
        is_schedule(vesting),
    ensures
        termination_check(release, vesting) is Ok <==> {
            &&& forall|i: int|
                0 <= i < release.len() ==> unlocked_at(release, #[trigger] release[i].timestamp as int)
                    <= unlocked_at(vesting, release[i].timestamp as int)
            &&& forall|j: int|
                0 <= j < vesting.len() ==> unlocked_at(release, #[trigger] vesting[j].timestamp as int)
                    <= unlocked_at(vesting, vesting[j].timestamp as int)
        },
{
    assert forall|i: int| 0 <= i < release.len() implies (#[trigger] release_lags_at(
        release,
        vesting,
        i,
    ) <==> unlocked_at(release, release[i].timestamp as int) <= unlocked_at(
        vesting,
        release[i].timestamp as int,
    )) by {
        lemma_unlocked_at_checkpoint(release, i);
    }
    assert forall|j: int| 0 <= j < vesting.len() implies (#[trigger] vesting_leads_at(
        release,
        vesting,
        j,
    ) <==> unlocked_at(release, vesting[j].timestamp as int) <= unlocked_at(
        vesting,
        vesting[j].timestamp as int,
    )) by {
        lemma_unlocked_at_checkpoint(vesting, j);
    }
    if termination_check(release, vesting) is Ok {
        assert forall|i: int| 0 <= i < release.len() implies unlocked_at(
            release,
            #[trigger] release[i].timestamp as int,
        ) <= unlocked_at(vesting, release[i].timestamp as int) by {
            assert(release_lags_at(release, vesting, i));
        }
        assert forall|j: int| 0 <= j < vesting.len() implies unlocked_at(
            release,
            #[trigger] vesting[j].timestamp as int,
        ) <= unlocked_at(vesting, vesting[j].timestamp as int) by {
            assert(vesting_leads_at(release, vesting, j));
        }
    }
}

/// The two-sided check accepts every pair in which the release schedule lags
/// the vesting schedule at all times.
pub proof fn lemma_lagging_release_accepted(release: Seq<Checkpoint>, vesting: Seq<Checkpoint>)
    requires
        is_schedule(release),
        is_schedule(vesting),
        forall|t: int| #[trigger] unlocked_at(release, t) <= unlocked_at(vesting, t),
    ensures
        termination_check(release, vesting) is Ok,
{
    lemma_termination_check_sides(release, vesting);
}

} // verus!
