use vstd::prelude::*;
use crate::error::LockupError;
use crate::hash::{borsh_encode, sha256_digest, schedule_hash};
use crate::math::{
    lemma_mul_div_ceil_bounds, mul_div_ceil, mul_div_ceil_u128, mul_div_floor,
    mul_div_floor_u128,
};

verus! {

/// A point of a schedule: at `timestamp`, in seconds since the epoch, exactly
/// `balance` has been unlocked in all.
#[derive(Clone, Copy, Debug, PartialEq, Eq)]
pub struct Checkpoint {
    pub timestamp: u128,
    pub balance: u128,
}

/// A release curve: checkpoints in order of time, with the unlocked balance
/// linear in time between two neighbours.
#[derive(Debug, PartialEq)]
pub struct Schedule(pub Vec<Checkpoint>);

impl View for Schedule {
    type V = Seq<Checkpoint>;

    open spec fn view(&self) -> Seq<Checkpoint> {
        self.0@
    }
}

/// Timestamps strictly increase along `s`.
pub open spec fn time_increases(s: Seq<Checkpoint>) -> bool {
    forall|i: int, j: int| 0 <= i < j < s.len() ==> s[i].timestamp < s[j].timestamp
}

/// Balances never decrease along `s`.
pub open spec fn balance_grows(s: Seq<Checkpoint>) -> bool {
    forall|i: int, j: int| 0 <= i <= j < s.len() ==> s[i].balance <= s[j].balance
}

/// The shape every schedule has: two checkpoints or more, nothing unlocked at
/// the first, time strictly increasing and balance not decreasing.
pub open spec fn is_schedule(s: Seq<Checkpoint>) -> bool {
    &&& s.len() >= 2
    &&& s[0].balance == 0
    &&& time_increases(s)
    &&& balance_grows(s)
}

/// A schedule that releases exactly `total`, which is more than nothing.
pub open spec fn is_schedule_for(s: Seq<Checkpoint>, total: u128) -> bool {
    &&& is_schedule(s)
    &&& total > 0
    &&& s.last().balance == total
}

/// Checkpoints `k` and `k + 1` are in order.
pub open spec fn pair_in_order(s: Seq<Checkpoint>, k: int) -> bool {
    s[k].timestamp < s[k + 1].timestamp && s[k].balance <= s[k + 1].balance
}

/// The first `n` pairs of neighbours are in order.
pub open spec fn pairs_in_order(s: Seq<Checkpoint>, n: int) -> bool {
    forall|k: int| 0 <= k < n ==> #[trigger] pair_in_order(s, k)
}

/// The first pair of neighbours that is out of order.
pub open spec fn first_disorder(s: Seq<Checkpoint>) -> int {
    choose|k: int| 0 <= k < s.len() - 1 && !pair_in_order(s, k) && pairs_in_order(s, k)
}

/// What validating `s` against the transferred amount `total` answers: the
/// first check that fails, in the order length, first balance, pairs of
/// neighbours from the front (time before balance), total.
pub open spec fn validation(s: Seq<Checkpoint>, total: u128) -> Result<(), LockupError> {
    if s.len() < 2 {
        Err(LockupError::TooFewCheckpoints)
    } else if s[0].balance != 0 {
        Err(LockupError::FirstBalanceNotZero)
    } else if !pairs_in_order(s, s.len() - 1) {
        let k = first_disorder(s);
        if s[k].timestamp >= s[k + 1].timestamp {
            Err(LockupError::TimestampNotIncreasing { checkpoint: k as usize })
        } else {
            Err(LockupError::BalanceDecreasing { checkpoint: k as usize })
        }
    } else if s.last().balance == 0 {
        Err(LockupError::ZeroTotalBalance)
    } else if s.last().balance != total {
        Err(LockupError::TotalBalanceMismatch)
    } else {
        Ok(())
    }
}

/// The schedule that holds nothing from `start` to `finish`.
pub open spec fn zero_balance_schedule(start: u128, finish: u128) -> Seq<Checkpoint> {
    seq![
        Checkpoint { timestamp: start, balance: 0 },
        Checkpoint { timestamp: finish, balance: 0 },
    ]
}

/// The schedule that unlocks all of `total` in the second that ends at `timestamp`.
pub open spec fn unlocked_since_schedule(total: u128, timestamp: u128) -> Seq<Checkpoint> {
    seq![
        Checkpoint { timestamp: (timestamp - 1) as u128, balance: 0 },
        Checkpoint { timestamp: timestamp, balance: total },
    ]
}

/// The balance unlocked at time `t` on the straight line from `a` to `b`,
/// rounded down.
pub open spec fn interpolate(a: Checkpoint, b: Checkpoint, t: int) -> int {
    a.balance + mul_div_floor(
        t - a.timestamp,
        b.balance - a.balance,
        b.timestamp - a.timestamp,
    )
}

/// Time `t` falls between checkpoint `i`, inclusive, and checkpoint `i + 1`.
pub open spec fn in_segment(s: Seq<Checkpoint>, i: int, t: int) -> bool {
    0 <= i < s.len() - 1 && s[i].timestamp <= t < s[i + 1].timestamp
}

/// The segment that time `t` falls in.
pub open spec fn segment_of(s: Seq<Checkpoint>, t: int) -> int {
    choose|i: int| in_segment(s, i, t)
}

/// The balance that `s` has unlocked at time `t`: nothing before the first
/// checkpoint, everything from the last one on, and in between what the line
/// through the two neighbouring checkpoints gives, rounded down.
pub open spec fn unlocked_at(s: Seq<Checkpoint>, t: int) -> int {
    if s.len() == 0 || t < s[0].timestamp {
        0
    } else if t >= s.last().timestamp {
        s.last().balance as int
    } else {
        interpolate(s[segment_of(s, t)], s[segment_of(s, t) + 1], t)
    }
}

/// Balance `x` is reached between checkpoint `i`, exclusive, and checkpoint
/// `i + 1`, inclusive.
pub open spec fn is_cut(s: Seq<Checkpoint>, i: int, x: int) -> bool {
    0 <= i < s.len() - 1 && s[i].balance < x <= s[i + 1].balance
}

/// The segment in which balance `x` is reached.
pub open spec fn cut_of(s: Seq<Checkpoint>, x: int) -> int {
    choose|i: int| is_cut(s, i, x)
}

/// The first whole second at which the line from `a` to `b` has released `x`.
pub open spec fn reach_time(a: Checkpoint, b: Checkpoint, x: int) -> int {
    a.timestamp + mul_div_ceil(
        x - a.balance,
        b.timestamp - a.timestamp,
        b.balance - a.balance,
    )
}

/// The end of a schedule that was emptied: the hint where it lies after the
/// start, else the second after the start.
pub open spec fn zero_finish(start: u128, hint: u128) -> int {
    if hint > start {
        hint as int
    } else {
        start + 1
    }
}

/// The timestamp at which `s`, cut down to the total `x`, ends.
pub open spec fn termination_time(s: Seq<Checkpoint>, x: u128, hint: u128) -> int {
    if x == 0 {
        zero_finish(s[0].timestamp, hint)
    } else {
        reach_time(s[cut_of(s, x as int)], s[cut_of(s, x as int) + 1], x as int)
    }
}

/// Why `s` cannot be cut down to the total `x`, if it cannot.
pub open spec fn termination_error(s: Seq<Checkpoint>, x: u128, hint: u128) -> Option<
    LockupError,
> {
    if x == 0 {
        None
    } else if x > s.last().balance {
        Some(LockupError::Invariant)
    } else if termination_time(s, x, hint) > u64::MAX {
        Some(LockupError::TimestampOverflow)
    } else {
        None
    }
}

/// `s` cut down to the total `x`. With `x == 0` only the start of `s` is
/// kept. Otherwise the checkpoints below `x` stay and one is added where the
/// curve reaches `x`, its time rounded up to a whole second.
pub open spec fn terminated(s: Seq<Checkpoint>, x: u128, hint: u128) -> Seq<Checkpoint> {
    if x == 0 {
        zero_balance_schedule(s[0].timestamp, zero_finish(s[0].timestamp, hint) as u128)
    } else {
        s.take(cut_of(s, x as int) + 1).push(
            Checkpoint { timestamp: termination_time(s, x, hint) as u128, balance: x },
        )
    }
}

/// Checkpoint `i` of the release schedule is not ahead of the vesting schedule.
pub open spec fn release_lags_at(
    release: Seq<Checkpoint>,
    vesting: Seq<Checkpoint>,
    i: int,
) -> bool {
    release[i].balance <= unlocked_at(vesting, release[i].timestamp as int)
}

/// Checkpoint `j` of the vesting schedule is not behind the release schedule.
pub open spec fn vesting_leads_at(
    release: Seq<Checkpoint>,
    vesting: Seq<Checkpoint>,
    j: int,
) -> bool {
    vesting[j].balance >= unlocked_at(release, vesting[j].timestamp as int)
}

/// The release schedule is ahead at none of its first `n` checkpoints.
pub open spec fn release_lags_upto(
    release: Seq<Checkpoint>,
    vesting: Seq<Checkpoint>,
    n: int,
) -> bool {
    forall|i: int| 0 <= i < n ==> #[trigger] release_lags_at(release, vesting, i)
}

/// The vesting schedule is behind at none of its first `n` checkpoints.
pub open spec fn vesting_leads_upto(
    release: Seq<Checkpoint>,
    vesting: Seq<Checkpoint>,
    n: int,
) -> bool {
    forall|j: int| 0 <= j < n ==> #[trigger] vesting_leads_at(release, vesting, j)
}

/// The first checkpoint of the release schedule that is ahead of the vesting
/// schedule.
pub open spec fn first_release_ahead(release: Seq<Checkpoint>, vesting: Seq<Checkpoint>) -> int {
    choose|i: int|
        0 <= i < release.len() && !release_lags_at(release, vesting, i) && release_lags_upto(
            release,
            vesting,
            i,
        )
}

/// The first checkpoint of the vesting schedule that is behind the release
/// schedule.
pub open spec fn first_vesting_behind(release: Seq<Checkpoint>, vesting: Seq<Checkpoint>) -> int {
    choose|j: int|
        0 <= j < vesting.len() && !vesting_leads_at(release, vesting, j) && vesting_leads_upto(
            release,
            vesting,
            j,
        )
}

/// The two-sided check of a release schedule against a vesting schedule. It
/// passes when the release schedule has, at each of its own checkpoints,
/// unlocked no more than the vesting schedule has vested, and the vesting
/// schedule has, at each of its own checkpoints, vested no less than the
/// release schedule has unlocked. The release schedule's checkpoints are
/// tried first, each list from the front.
pub open spec fn termination_check(release: Seq<Checkpoint>, vesting: Seq<Checkpoint>) -> Result<
    (),
    LockupError,
> {
    if !release_lags_upto(release, vesting, release.len() as int) {
        Err(
            LockupError::LockupAhead {
                timestamp: release[first_release_ahead(release, vesting)].timestamp,
            },
        )
    } else if !vesting_leads_upto(release, vesting, vesting.len() as int) {
        Err(
            LockupError::TerminationAhead {
                timestamp: vesting[first_vesting_behind(release, vesting)].timestamp,
            },
        )
    } else {
        Ok(())
    }
}

/// Neighbours in order all along mean the same as time increasing and balance
/// growing over any distance.
pub proof fn lemma_pairs_in_order(s: Seq<Checkpoint>)
    ensures
        pairs_in_order(s, s.len() - 1) <==> time_increases(s) && balance_grows(s),
{
    if pairs_in_order(s, s.len() - 1) {
        assert forall|i: int, j: int| 0 <= i <= j < s.len() implies s[i].balance <= s[j].balance
            && (i < j ==> s[i].timestamp < s[j].timestamp) by {
            lemma_pairs_in_order_span(s, i, j);
        }
    }
    if time_increases(s) && balance_grows(s) {
        assert forall|k: int| 0 <= k < s.len() - 1 implies #[trigger] pair_in_order(s, k) by {
            assert(s[k].timestamp < s[k + 1].timestamp);
        }
    }
}

proof fn lemma_pairs_in_order_span(s: Seq<Checkpoint>, i: int, j: int)
    requires
        pairs_in_order(s, s.len() - 1),
        0 <= i <= j < s.len(),
    ensures
        s[i].balance <= s[j].balance,
        i < j ==> s[i].timestamp < s[j].timestamp,
    decreases j - i,
{
    if i < j {
        lemma_pairs_in_order_span(s, i, j - 1);
        assert(pair_in_order(s, j - 1));
    }
}

/// Validation passes exactly on the schedules that release `total`.
pub proof fn lemma_validation_ok(s: Seq<Checkpoint>, total: u128)
    ensures
        validation(s, total) is Ok <==> is_schedule_for(s, total),
{
    lemma_pairs_in_order(s);
}

/// In a schedule, the segment a time falls in is the only one.
pub proof fn lemma_segment_unique(s: Seq<Checkpoint>, i: int, t: int)
    requires
        time_increases(s),
        in_segment(s, i, t),
    ensures
        segment_of(s, t) == i,
{
    let j = segment_of(s, t);
    assert(in_segment(s, j, t));
    if j < i {
        assert(s[j + 1].timestamp <= s[i].timestamp);
    }
    if i < j {
        assert(s[i + 1].timestamp <= s[j].timestamp);
    }
}

/// In a schedule, the segment in which a balance is reached is the only one.
pub proof fn lemma_cut_unique(s: Seq<Checkpoint>, i: int, x: int)
    requires
        balance_grows(s),
        is_cut(s, i, x),
    ensures
        cut_of(s, x) == i,
{
    let j = cut_of(s, x);
    assert(is_cut(s, j, x));
    if j < i {
        assert(s[j + 1].balance <= s[i].balance);
    }
    if i < j {
        assert(s[i + 1].balance <= s[j].balance);
    }
}

impl Clone for Schedule {
    fn clone(&self) -> (res: Self)
        ensures
            res@ == self@,
    {
        let mut checkpoints: Vec<Checkpoint> = Vec::new();
        let mut i: usize = 0;
        while i < self.0.len()
            invariant
                i <= self.0.len(),
                checkpoints@ == self.0@.take(i as int),
            decreases self.0.len() - i,
        {
            checkpoints.push(self.0[i]);
            i = i + 1;
        }
        Schedule(checkpoints)
    }
}

impl Schedule {
    /// The schedule has the shape of one; see [`is_schedule`].
    pub open spec fn well_formed(&self) -> bool {
        is_schedule(self@)
    }

    /// Builds the schedule that holds nothing from `start_timestamp` to
    /// `finish_timestamp`. An empty or reversed range is refused.
    pub fn new_zero_balance_from_to(start_timestamp: u128, finish_timestamp: u128) -> (res: Result<
        Schedule,
        LockupError,
    >)
        ensures
            finish_timestamp > start_timestamp ==> res is Ok,
            res matches Ok(s) ==> s@ == zero_balance_schedule(start_timestamp, finish_timestamp)
                && s.well_formed(),
            res matches Err(e) ==> e == LockupError::Invariant && finish_timestamp
                <= start_timestamp,
    {
        if finish_timestamp <= start_timestamp {
            return Err(LockupError::Invariant);
        }
        let mut checkpoints: Vec<Checkpoint> = Vec::new();
        checkpoints.push(Checkpoint { timestamp: start_timestamp, balance: 0 });
        checkpoints.push(Checkpoint { timestamp: finish_timestamp, balance: 0 });
        Ok(Schedule(checkpoints))
    }

    /// Builds the schedule that unlocks all of `total_balance` at `timestamp`,
    /// over the second before it. A zero timestamp is refused, and then a zero
    /// balance.
    pub fn new_unlocked_since(total_balance: u128, timestamp: u128) -> (res: Result<
        Schedule,
        LockupError,
    >)
        ensures
            timestamp > 0 && total_balance > 0 ==> res is Ok,
            res matches Ok(s) ==> s@ == unlocked_since_schedule(total_balance, timestamp)
                && is_schedule_for(s@, total_balance),
            res matches Err(e) ==> e == (if timestamp == 0 {
                LockupError::Invariant
            } else {
                LockupError::ZeroTotalBalance
            }) && (timestamp == 0 || total_balance == 0),
    {
        if timestamp == 0 {
            return Err(LockupError::Invariant);
        }
        if total_balance == 0 {
            return Err(LockupError::ZeroTotalBalance);
        }
        let mut checkpoints: Vec<Checkpoint> = Vec::new();
        checkpoints.push(Checkpoint { timestamp: timestamp - 1, balance: 0 });
        checkpoints.push(Checkpoint { timestamp: timestamp, balance: total_balance });
        Ok(Schedule(checkpoints))
    }

    /// Builds the schedule that has unlocked all of `total_balance` from the
    /// first second on. A zero balance is refused.
    pub fn new_unlocked(total_balance: u128) -> (res: Result<Schedule, LockupError>)
        ensures
            total_balance > 0 ==> res is Ok,
            res matches Ok(s) ==> s@ == unlocked_since_schedule(total_balance, 1)
                && is_schedule_for(s@, total_balance),
            res matches Err(e) ==> e == LockupError::ZeroTotalBalance && total_balance == 0,
    {
        Schedule::new_unlocked_since(total_balance, 1)
    }

    /// Tells whether the schedule has the shape of one, whatever it releases.
    pub fn is_well_formed(&self) -> (res: bool)
        ensures
            res == self.well_formed(),
    {
        let n = self.0.len();
        if n < 2 {
            return false;
        }
        if self.0[0].balance != 0 {
            return false;
        }
        let mut i: usize = 1;
        while i < n
            invariant
                1 <= i <= n,
                n == self.0.len(),
                pairs_in_order(self@, i - 1),
            decreases n - i,
        {
            if !(self.0[i - 1].timestamp < self.0[i].timestamp && self.0[i - 1].balance
                <= self.0[i].balance) {
                proof {
                    assert(!pair_in_order(self@, i - 1));
                    lemma_pairs_in_order(self@);
                }
                return false;
            }
            i = i + 1;
        }
        proof {
            lemma_pairs_in_order(self@);
        }
        true
    }

    /// Checks every rule of a schedule that releases `total_balance`, and
    /// names the first one that is broken; see [`validation`].
    pub fn assert_valid(&self, total_balance: u128) -> (res: Result<(), LockupError>)
        ensures
            res == validation(self@, total_balance),
            res is Ok <==> is_schedule_for(self@, total_balance),
    {
        proof {
            lemma_validation_ok(self@, total_balance);
        }
        let n = self.0.len();
        if n < 2 {
            return Err(LockupError::TooFewCheckpoints);
        }
        if self.0[0].balance != 0 {
            return Err(LockupError::FirstBalanceNotZero);
        }
        let mut i: usize = 1;
        while i < n
            invariant
                1 <= i <= n,
                2 <= n == self.0.len(),
                self@[0].balance == 0,
                pairs_in_order(self@, i - 1),
            decreases n - i,
        {
            let ghost k = i - 1;
            if !(self.0[i - 1].timestamp < self.0[i].timestamp) {
                proof {
                    assert(!pair_in_order(self@, k));
                    assert(first_disorder(self@) == k) by {
                        let f = first_disorder(self@);
                        if f < k {
                            assert(pair_in_order(self@, f));
                        }
                        if f > k {
                            assert(pair_in_order(self@, k));
                        }
                    }
                }
                return Err(LockupError::TimestampNotIncreasing { checkpoint: i - 1 });
            }
            if !(self.0[i - 1].balance <= self.0[i].balance) {
                proof {
                    assert(!pair_in_order(self@, k));
                    assert(first_disorder(self@) == k) by {
                        let f = first_disorder(self@);
                        if f < k {
                            assert(pair_in_order(self@, f));
                        }
                        if f > k {
                            assert(pair_in_order(self@, k));
                        }
                    }
                }
                return Err(LockupError::BalanceDecreasing { checkpoint: i - 1 });
            }
            assert(pair_in_order(self@, k));
            i = i + 1;
        }
        if self.0[n - 1].balance == 0 {
            return Err(LockupError::ZeroTotalBalance);
        }
        if self.0[n - 1].balance != total_balance {
            return Err(LockupError::TotalBalanceMismatch);
        }
        Ok(())
    }

    /// The balance unlocked at `current_timestamp`; see [`unlocked_at`]. The
    /// product under the division is taken in full, however large.
    pub fn unlocked_balance(&self, current_timestamp: u128) -> (res: u128)
        requires
            self.well_formed(),
        ensures
            res == unlocked_at(self@, current_timestamp as int),
            res <= self@.last().balance,
    {
        proof {
            crate::schedule_laws::lemma_unlocked_bounded(self@, current_timestamp as int);
        }
        let n = self.0.len();
        if current_timestamp < self.0[0].timestamp {
            return 0;
        }
        if current_timestamp >= self.0[n - 1].timestamp {
            return self.0[n - 1].balance;
        }
        let mut lo: usize = 0;
        let mut hi: usize = n - 1;
        while hi - lo > 1
            invariant
                lo < hi < n,
                n == self.0.len(),
                self.0[lo as int].timestamp <= current_timestamp < self.0[hi as int].timestamp,
            decreases hi - lo,
        {
            let mid = lo + (hi - lo) / 2;
            if self.0[mid].timestamp <= current_timestamp {
                lo = mid;
            } else {
                hi = mid;
            }
        }
        let before = self.0[lo];
        let after = self.0[lo + 1];
        proof {
            assert(in_segment(self@, lo as int, current_timestamp as int));
            lemma_segment_unique(self@, lo as int, current_timestamp as int);
            assert(before.balance <= after.balance);
        }
        let gained = mul_div_floor_u128(
            current_timestamp - before.timestamp,
            after.balance - before.balance,
            after.timestamp - before.timestamp,
        );
        before.balance + gained
    }

    /// The balance that the schedule releases in all: that of its last checkpoint.
    pub fn total_balance(&self) -> (res: u128)
        requires
            self@.len() > 0,
        ensures
            res == self@.last().balance,
    {
        self.0[self.0.len() - 1].balance
    }

    /// The commitment to this schedule: the SHA-256 digest of its checkpoints
    /// in Borsh encoding.
    pub fn hash(&self) -> (res: [u8; 32])
        requires
            self@.len() <= u32::MAX,
        ensures
            res@ == schedule_hash(self@),
    {
        let mut pairs: Vec<(u128, u128)> = Vec::new();
        let mut i: usize = 0;
        while i < self.0.len()
            invariant
                i <= self.0.len(),
                pairs@ == self@.take(i as int).map_values(|c: Checkpoint| (c.timestamp, c.balance)),
            decreases self.0.len() - i,
        {
            let c = self.0[i];
            pairs.push((c.timestamp, c.balance));
            proof {
                assert(self@.take(i + 1) == self@.take(i as int).push(c));
            }
            i = i + 1;
        }
        proof {
            assert(self@.take(self@.len() as int) == self@);
        }
        match borsh_encode(&pairs) {
            Some(bytes) => sha256_digest(&bytes),
            // a list of this length is never refused
            None => {
                assert(false);
                [0u8; 32]
            },
        }
    }

    /// Cuts the schedule down so that it releases `new_total_balance` in all;
    /// see [`terminated`]. `finish_timestamp` is a hint that only an emptied
    /// schedule takes. A total above the current one is refused, and so is a
    /// cut whose timestamp would be above `u64::MAX`; the schedule then stays
    /// as it was.
    pub fn terminate(&mut self, new_total_balance: u128, finish_timestamp: u128) -> (res: Result<
        (),
        LockupError,
    >)
        requires
            old(self).well_formed(),
        ensures
            res == (match termination_error(old(self)@, new_total_balance, finish_timestamp) {
                Some(e) => Err(e),
                None => Ok(()),
            }),
            res is Ok ==> final(self)@ == terminated(
                old(self)@,
                new_total_balance,
                finish_timestamp,
            ),
            res is Ok ==> final(self).well_formed() && final(self)@.last().balance
                == new_total_balance && final(self)@.last().timestamp == termination_time(
                old(self)@,
                new_total_balance,
                finish_timestamp,
            ),
            res is Err ==> final(self)@ == old(self)@,
    {
        let n = self.0.len();
        if new_total_balance == 0 {
            let start = self.0[0].timestamp;
            assert(start < self.0[1].timestamp);
            let finish = if finish_timestamp > start {
                finish_timestamp
            } else {
                start + 1
            };
            let mut checkpoints: Vec<Checkpoint> = Vec::new();
            checkpoints.push(Checkpoint { timestamp: start, balance: 0 });
            checkpoints.push(Checkpoint { timestamp: finish, balance: 0 });
            self.0 = checkpoints;
            return Ok(());
        }
        if new_total_balance > self.0[n - 1].balance {
            return Err(LockupError::Invariant);
        }
        let mut i: usize = n - 2;
        while self.0[i].balance >= new_total_balance
            invariant
                i < n - 1,
                n == self.0.len(),
                self.well_formed(),
                new_total_balance > 0,
                self.0[i + 1].balance >= new_total_balance,
            decreases i,
        {
            assert(i > 0);
            i = i - 1;
        }
        let before = self.0[i];
        let after = self.0[i + 1];
        proof {
            assert(is_cut(self@, i as int, new_total_balance as int));
            lemma_cut_unique(self@, i as int, new_total_balance as int);
            assert(before.timestamp < after.timestamp);
            lemma_mul_div_ceil_bounds(
                new_total_balance - before.balance,
                after.timestamp - before.timestamp,
                after.balance - before.balance,
            );
        }
        let delay = mul_div_ceil_u128(
            new_total_balance - before.balance,
            after.timestamp - before.timestamp,
            after.balance - before.balance,
        );
        let new_timestamp = before.timestamp + delay;
        if new_timestamp > 18_446_744_073_709_551_615u128 {
            return Err(LockupError::TimestampOverflow);
        }
        self.0.truncate(i + 1);
        self.0.push(Checkpoint { timestamp: new_timestamp, balance: new_total_balance });
        proof {
            assert(self@ =~= terminated(old(self)@, new_total_balance, finish_timestamp));
            crate::schedule_laws::lemma_terminated_is_schedule(
                old(self)@,
                new_total_balance,
                finish_timestamp,
            );
        }
        Ok(())
    }

    /// Checks this release schedule against a vesting schedule from both
    /// sides; see [`termination_check`]. The error names the time of the first
    /// checkpoint at which the release schedule is ahead.
    pub fn assert_valid_termination_schedule(&self, termination_schedule: &Schedule) -> (res:
        Result<(), LockupError>)
        requires
            self.well_formed(),
            termination_schedule.well_formed(),
        ensures
            res == termination_check(self@, termination_schedule@),
    {
        let mut i: usize = 0;
        while i < self.0.len()
            invariant
                i <= self.0.len(),
                self.well_formed(),
                termination_schedule.well_formed(),
                release_lags_upto(self@, termination_schedule@, i as int),
            decreases self.0.len() - i,
        {
            let checkpoint = self.0[i];
            if checkpoint.balance > termination_schedule.unlocked_balance(checkpoint.timestamp) {
                proof {
                    let ghost k = i as int;
                    assert(!release_lags_at(self@, termination_schedule@, k));
                    let f = first_release_ahead(self@, termination_schedule@);
                    if f < k {
                        assert(release_lags_at(self@, termination_schedule@, f));
                    }
                    if f > k {
                        assert(release_lags_at(self@, termination_schedule@, k));
                    }
                }
                return Err(LockupError::LockupAhead { timestamp: checkpoint.timestamp });
            }
            assert(release_lags_at(self@, termination_schedule@, i as int));
            i = i + 1;
        }
        let mut j: usize = 0;
        while j < termination_schedule.0.len()
            invariant
                j <= termination_schedule.0.len(),
                self.well_formed(),
                termination_schedule.well_formed(),
                release_lags_upto(self@, termination_schedule@, self@.len() as int),
                vesting_leads_upto(self@, termination_schedule@, j as int),
            decreases termination_schedule.0.len() - j,
        {
            let checkpoint = termination_schedule.0[j];
            if checkpoint.balance < self.unlocked_balance(checkpoint.timestamp) {
                proof {
                    let ghost k = j as int;
                    assert(!vesting_leads_at(self@, termination_schedule@, k));
                    let f = first_vesting_behind(self@, termination_schedule@);
                    if f < k {
                        assert(vesting_leads_at(self@, termination_schedule@, f));
                    }
                    if f > k {
                        assert(vesting_leads_at(self@, termination_schedule@, k));
                    }
                }
                return Err(LockupError::TerminationAhead { timestamp: checkpoint.timestamp });
            }
            assert(vesting_leads_at(self@, termination_schedule@, j as int));
            j = j + 1;
        }
        Ok(())
    }
}

} // verus!
