//! File times as plain numbers, and the choice of the newest among several.

use vstd::prelude::*;

verus! {

/// A file time: whole seconds and the nanoseconds that follow them.
///
/// Times are ordered by their seconds, and by their nanoseconds where the
/// seconds agree.
#[derive(Clone, Copy, Debug, PartialEq, Eq, Structural)]
pub struct Timestamp {
    pub seconds: i64,
    pub nanos: u32,
}

impl Timestamp {
    /// `self` is strictly earlier than `other`.
    pub open spec fn before(self, other: Timestamp) -> bool {
        self.seconds < other.seconds || (self.seconds == other.seconds && self.nanos
            < other.nanos)
    }

    /// The time of `seconds` and `nanos`.
    pub fn new(seconds: i64, nanos: u32) -> (r: Timestamp)
        ensures
            r.seconds == seconds,
            r.nanos == nanos,
    {
        Timestamp { seconds, nanos }
    }

    /// Whether `self` is strictly earlier than `other`.
    pub fn is_before(&self, other: &Timestamp) -> (r: bool)
        ensures
            r == self.before(*other),
    {
        self.seconds < other.seconds || (self.seconds == other.seconds && self.nanos
            < other.nanos)
    }
}

/// `k` is the place of the newest time in `times`: no time is later than
/// `times[k]`, and every time after place `k` is strictly earlier. Among equal
/// newest times this is the last one.
pub open spec fn is_latest(times: Seq<Timestamp>, k: int) -> bool {
    &&& 0 <= k < times.len()
    &&& forall|i: int| 0 <= i < times.len() ==> !times[k].before(#[trigger] times[i])
    &&& forall|i: int| k < i < times.len() ==> (#[trigger] times[i]).before(times[k])
}

/// The place of the newest time in `times`, if there is any time at all.
pub open spec fn latest_of(times: Seq<Timestamp>) -> Option<int> {
    if times.len() == 0 {
        None
    } else {
        Some(choose|k: int| is_latest(times, k))
    }
}

/// Finds the newest of `times`; of several equal newest times, the last.
pub fn latest(times: &Vec<Timestamp>) -> (r: Option<usize>)
    ensures
        times@.len() == 0 <==> r is None,
        r matches Some(k) ==> is_latest(times@, k as int) && latest_of(times@) == Some(k as int),
        r is None ==> latest_of(times@) is None,
{
    if times.len() == 0 {
        return None;
    }
    let mut best: usize = 0;
    let mut i: usize = 1;
    while i < times.len()
        invariant
            1 <= i <= times.len(),
            best < i,
            is_latest(times@.take(i as int), best as int),
        decreases times.len() - i,
    {
        let ghost seen = times@.take(i as int);
        let ghost grown = times@.take(i + 1);
        assert forall|j: int| 0 <= j < i implies #[trigger] grown[j] == seen[j] by {}
        if !times[i].is_before(&times[best]) {
            assert forall|j: int| 0 <= j < grown.len() implies !grown[i as int].before(
                #[trigger] grown[j],
            ) by {
                if j < i {
                    assert(!seen[best as int].before(seen[j]));
                }
            }
            best = i;
        } else {
            assert forall|j: int| 0 <= j < grown.len() implies !grown[best as int].before(
                #[trigger] grown[j],
            ) by {
                if j < i {
                    assert(!seen[best as int].before(seen[j]));
                }
            }
            assert forall|j: int| best < j < grown.len() implies (#[trigger] grown[j]).before(
                grown[best as int],
            ) by {
                if j < i {
                    assert(seen[j].before(seen[best as int]));
                }
            }
        }
        i += 1;
    }
    assert(times@.take(times.len() as int) =~= times@);
    proof {
        latest_is_unique(times@, best as int, choose|k: int| is_latest(times@, k));
    }
    Some(best)
}

/// At most one place is the place of the newest time.
pub proof fn latest_is_unique(times: Seq<Timestamp>, j: int, k: int)
    requires
        is_latest(times, j),
        is_latest(times, k),
    ensures
        j == k,
{
    if j < k {
        assert(times[k].before(times[j]));
        assert(!times[k].before(times[j]));
    } else if k < j {
        assert(times[j].before(times[k]));
        assert(!times[j].before(times[k]));
    }
}

/// Of two times of which one is strictly earlier, the later one is chosen,
/// whichever comes first.
pub proof fn later_of_two_is_latest(earlier: Timestamp, later: Timestamp)
    requires
        earlier.before(later),
    ensures
        latest_of(seq![earlier, later]) == Some(1int),
        latest_of(seq![later, earlier]) == Some(0int),
{
    let up = seq![earlier, later];
    let down = seq![later, earlier];
    assert(is_latest(up, 1));
    assert(is_latest(down, 0));
    latest_is_unique(up, 1, choose|k: int| is_latest(up, k));
    latest_is_unique(down, 0, choose|k: int| is_latest(down, k));
}

/// Where there is any time at all, one of them is the newest.
pub proof fn newest_exists(times: Seq<Timestamp>)
    requires
        times.len() > 0,
    ensures
        latest_of(times) matches Some(k) && is_latest(times, k),
    decreases times.len(),
{
    if times.len() == 1 {
        assert(is_latest(times, 0));
    } else {
        let init = times.drop_last();
        newest_exists(init);
        let k0 = latest_of(init)->0;
        let n = times.len() - 1;
        assert forall|i: int| 0 <= i < n implies #[trigger] times[i] == init[i] by {}
        if times[n].before(times[k0]) {
            assert forall|i: int| 0 <= i < times.len() implies !times[k0].before(
                #[trigger] times[i],
            ) by {
                if i < n {
                    assert(!init[k0].before(init[i]));
                }
            }
            assert forall|i: int| k0 < i < times.len() implies (#[trigger] times[i]).before(
                times[k0],
            ) by {
                if i < n {
                    assert(init[i].before(init[k0]));
                }
            }
            assert(is_latest(times, k0));
        } else {
            assert forall|i: int| 0 <= i < times.len() implies !times[n].before(
                #[trigger] times[i],
            ) by {
                if i < n {
                    assert(!init[k0].before(init[i]));
                }
            }
            assert(is_latest(times, n));
        }
    }
}

} // verus!
