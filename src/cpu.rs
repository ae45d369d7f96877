use vstd::prelude::*;
use vstd::string::*;

use crate::error::ProbeError;

verus! {

/// Time spent in each CPU category, in clock ticks.
#[derive(Debug, Clone, Copy, PartialEq, Eq)]
pub struct CpuStat {
    pub user: u64,
    pub nice: u64,
    pub system: u64,
    pub idle: u64,
    pub iowait: u64,
    pub irq: u64,
    pub softirq: u64,
    pub steal: u64,
    pub guest: u64,
    pub guestnice: u64,
}

/// Time idle or waiting for I/O.
pub open spec fn idle_all(s: CpuStat) -> int {
    s.idle + s.iowait
}

/// Time in the kernel, interrupts included.
pub open spec fn system_all(s: CpuStat) -> int {
    s.system + s.irq + s.softirq
}

/// Time spent running guests.
pub open spec fn virtual_time(s: CpuStat) -> int {
    s.guest + s.guestnice
}

/// All CPU time that the counters account for.
pub open spec fn grand_total(s: CpuStat) -> int {
    s.user + s.nice + system_all(s) + idle_all(s) + s.steal + virtual_time(s)
}

impl CpuStat {
    /// The grand total of all categories, which cannot overflow in 128 bits.
    pub fn total(&self) -> (r: u128)
        ensures
            r == grand_total(*self),
    {
        let idle_all = self.idle as u128 + self.iowait as u128;
        let system_all = self.system as u128 + self.irq as u128 + self.softirq as u128;
        let virtual_time = self.guest as u128 + self.guestnice as u128;
        self.user as u128 + self.nice as u128 + system_all + idle_all + self.steal as u128 + virtual_time
    }
}

/// One reading of the counters, with the monotonic clock in nanoseconds at
/// which it was taken.
#[derive(Debug, Clone, Copy, PartialEq, Eq)]
pub struct CpuMeasurement {
    pub precise_time_ns: u64,
    pub stat: CpuStat,
}

/// Length of the interval that `calculate_per_minute` scales to.
pub const NANOS_PER_MINUTE: u64 = 60_000_000_000;

/// The counter at position `k`, in the order user, nice, system, idle,
/// iowait, irq, softirq, steal, guest, guestnice.
pub open spec fn counter(s: CpuStat, k: int) -> u64 {
    if k == 0 {
        s.user
    } else if k == 1 {
        s.nice
    } else if k == 2 {
        s.system
    } else if k == 3 {
        s.idle
    } else if k == 4 {
        s.iowait
    } else if k == 5 {
        s.irq
    } else if k == 6 {
        s.softirq
    } else if k == 7 {
        s.steal
    } else if k == 8 {
        s.guest
    } else {
        s.guestnice
    }
}

/// The name of the counter at position `k`.
pub open spec fn counter_name(k: int) -> Seq<char> {
    if k == 0 {
        "user"@
    } else if k == 1 {
        "nice"@
    } else if k == 2 {
        "system"@
    } else if k == 3 {
        "idle"@
    } else if k == 4 {
        "iowait"@
    } else if k == 5 {
        "irq"@
    } else if k == 6 {
        "softirq"@
    } else if k == 7 {
        "steal"@
    } else if k == 8 {
        "guest"@
    } else {
        "guestnice"@
    }
}

/// An increase of `delta` over `elapsed` nanoseconds, scaled to `reference`
/// nanoseconds: multiplied first, then divided with truncation.
pub open spec fn scaled(delta: int, reference: int, elapsed: int) -> int {
    delta * reference / elapsed
}

/// The scaled increase of counter `k` between two readings.
pub open spec fn scaled_counter(earlier: CpuStat, later: CpuStat, k: int, reference: int, elapsed: int) -> int {
    scaled(counter(later, k) - counter(earlier, k), reference, elapsed)
}

/// Counter `k` did not go down, and its scaled increase fits in 64 bits.
pub open spec fn counter_usable(earlier: CpuStat, later: CpuStat, k: int, reference: int, elapsed: int) -> bool {
    &&& counter(earlier, k) <= counter(later, k)
    &&& scaled_counter(earlier, later, k, reference, elapsed) <= u64::MAX
}

/// The message that reports counter `k` as unusable.
pub open spec fn counter_fault(earlier: CpuStat, later: CpuStat, k: int) -> Seq<char> {
    if counter(later, k) < counter(earlier, k) {
        counter_name(k) + " decreased"@
    } else {
        counter_name(k) + " out of range"@
    }
}

/// The per-category increases between two readings, scaled to `reference`.
pub open spec fn scaled_stat(earlier: CpuStat, later: CpuStat, reference: int, elapsed: int) -> CpuStat {
    CpuStat {
        user: scaled_counter(earlier, later, 0, reference, elapsed) as u64,
        nice: scaled_counter(earlier, later, 1, reference, elapsed) as u64,
        system: scaled_counter(earlier, later, 2, reference, elapsed) as u64,
        idle: scaled_counter(earlier, later, 3, reference, elapsed) as u64,
        iowait: scaled_counter(earlier, later, 4, reference, elapsed) as u64,
        irq: scaled_counter(earlier, later, 5, reference, elapsed) as u64,
        softirq: scaled_counter(earlier, later, 6, reference, elapsed) as u64,
        steal: scaled_counter(earlier, later, 7, reference, elapsed) as u64,
        guest: scaled_counter(earlier, later, 8, reference, elapsed) as u64,
        guestnice: scaled_counter(earlier, later, 9, reference, elapsed) as u64,
    }
}

/// What turning `earlier` and `later` into an interval of `reference`
/// nanoseconds gives: `InvalidInput` unless `later` was taken strictly after
/// `earlier`; else `UnexpectedContent` naming the first counter, in order,
/// that went down or whose scaled increase does not fit in 64 bits; else the
/// scaled increases.
pub open spec fn interval_outcome(
    earlier: CpuMeasurement,
    later: CpuMeasurement,
    reference: int,
    r: Result<CpuStat, ProbeError>,
) -> bool {
    let elapsed = later.precise_time_ns - earlier.precise_time_ns;
    if elapsed <= 0 {
        r is Err && r->Err_0 is InvalidInput
    } else if forall|k: int| 0 <= k < 10 ==> counter_usable(earlier.stat, later.stat, k, reference, elapsed) {
        r == Ok::<CpuStat, ProbeError>(scaled_stat(earlier.stat, later.stat, reference, elapsed))
    } else {
        exists|k: int|
            {
                &&& 0 <= k < 10
                &&& !counter_usable(earlier.stat, later.stat, k, reference, elapsed)
                &&& forall|j: int| 0 <= j < k ==> counter_usable(earlier.stat, later.stat, j, reference, elapsed)
                &&& r is Err && r->Err_0 is UnexpectedContent
                &&& r->Err_0->UnexpectedContent_0@ == counter_fault(earlier.stat, later.stat, k)
            }
    }
}

fn counter_name_of(k: usize) -> (r: &'static str)
    requires
        k < 10,
    ensures
        r@ == counter_name(k as int),
{
    if k == 0 {
        "user"
    } else if k == 1 {
        "nice"
    } else if k == 2 {
        "system"
    } else if k == 3 {
        "idle"
    } else if k == 4 {
        "iowait"
    } else if k == 5 {
        "irq"
    } else if k == 6 {
        "softirq"
    } else if k == 7 {
        "steal"
    } else if k == 8 {
        "guest"
    } else {
        "guestnice"
    }
}

/// Scales the increase of one counter from `earlier` to `later` over
/// `elapsed` nanoseconds to `reference` nanoseconds.
fn time_adjusted(k: usize, later: u64, earlier: u64, elapsed: u64, reference: u64) -> (r: Result<u64, ProbeError>)
    requires
        k < 10,
        elapsed > 0,
    ensures
        later < earlier ==> r is Err && r->Err_0 is UnexpectedContent
            && r->Err_0->UnexpectedContent_0@ == counter_name(k as int) + " decreased"@,
        earlier <= later && scaled(later - earlier, reference as int, elapsed as int) > u64::MAX ==>
            r is Err && r->Err_0 is UnexpectedContent
            && r->Err_0->UnexpectedContent_0@ == counter_name(k as int) + " out of range"@,
        earlier <= later && scaled(later - earlier, reference as int, elapsed as int) <= u64::MAX ==>
            r == Ok::<u64, ProbeError>(scaled(later - earlier, reference as int, elapsed as int) as u64),
{
    let mut msg = String::from_str(counter_name_of(k));
    if later < earlier {
        msg.append(" decreased");
        return Err(ProbeError::UnexpectedContent(msg));
    }
    let delta: u128 = (later - earlier) as u128;
    assert(delta * (reference as u128) <= u128::MAX) by (nonlinear_arith)
        requires
            delta <= u64::MAX,
            reference <= u64::MAX,
    ;
    let q: u128 = delta * (reference as u128) / (elapsed as u128);
    if q > u64::MAX as u128 {
        msg.append(" out of range");
        Err(ProbeError::UnexpectedContent(msg))
    } else {
        Ok(q as u64)
    }
}

/// The ten counters of `s`, in order.
fn counters_of(s: &CpuStat) -> (r: Vec<u64>)
    ensures
        r@.len() == 10,
        forall|k: int| 0 <= k < 10 ==> r@[k] == counter(*s, k),
{
    vec![s.user, s.nice, s.system, s.idle, s.iowait, s.irq, s.softirq, s.steal, s.guest, s.guestnice]
}

/// The stat whose ten counters, in order, are `v`.
fn stat_of_counters(v: &Vec<u64>) -> (r: CpuStat)
    requires
        v@.len() == 10,
    ensures
        forall|k: int| 0 <= k < 10 ==> counter(r, k) == v@[k],
{
    CpuStat {
        user: v[0],
        nice: v[1],
        system: v[2],
        idle: v[3],
        iowait: v[4],
        irq: v[5],
        softirq: v[6],
        steal: v[7],
        guest: v[8],
        guestnice: v[9],
    }
}

impl CpuMeasurement {
    /// The increase of each counter from this measurement to `next`, scaled
    /// to an interval of `reference_ns` nanoseconds.
    pub fn calculate_interval(&self, next: &CpuMeasurement, reference_ns: u64) -> (r: Result<CpuStat, ProbeError>)
        ensures
            interval_outcome(*self, *next, reference_ns as int, r),
    {
        if next.precise_time_ns <= self.precise_time_ns {
            return Err(ProbeError::InvalidInput(String::from_str("measurements are not in time order")));
        }
        let elapsed: u64 = next.precise_time_ns - self.precise_time_ns;
        let ghost (ge, gl, rf, el) = (self.stat, next.stat, reference_ns as int, elapsed as int);
        let earlier = counters_of(&self.stat);
        let later = counters_of(&next.stat);
        let mut out: Vec<u64> = Vec::new();
        let mut k: usize = 0;
        while k < 10
            invariant
                k <= 10,
                el == elapsed as int,
                el == next.precise_time_ns - self.precise_time_ns,
                ge == self.stat,
                gl == next.stat,
                el > 0,
                rf == reference_ns as int,
                earlier@.len() == 10,
                later@.len() == 10,
                forall|j: int| 0 <= j < 10 ==> earlier@[j] == counter(ge, j) && later@[j] == counter(gl, j),
                out@.len() == k,
                forall|j: int| 0 <= j < k ==> counter_usable(ge, gl, j, rf, el),
                forall|j: int| 0 <= j < k ==> out@[j] == scaled_counter(ge, gl, j, rf, el),
            decreases 10 - k,
        {
            match time_adjusted(k, later[k], earlier[k], elapsed, reference_ns) {
                Ok(v) => out.push(v),
                Err(err) => {
                    assert(!counter_usable(ge, gl, k as int, rf, el));
                    assert(err->UnexpectedContent_0@ == counter_fault(ge, gl, k as int));
                    return Err(err);
                },
            }
            k += 1;
        }
        let r = stat_of_counters(&out);
        assert(r == scaled_stat(ge, gl, rf, el)) by {
            assert(counter(r, 0) == out@[0]);
            assert(counter(r, 1) == out@[1]);
            assert(counter(r, 2) == out@[2]);
            assert(counter(r, 3) == out@[3]);
            assert(counter(r, 4) == out@[4]);
            assert(counter(r, 5) == out@[5]);
            assert(counter(r, 6) == out@[6]);
            assert(counter(r, 7) == out@[7]);
            assert(counter(r, 8) == out@[8]);
            assert(counter(r, 9) == out@[9]);
        }
        Ok(r)
    }

    /// The increase of each counter from this measurement to `next`, scaled
    /// to one minute.
    pub fn calculate_per_minute(&self, next: &CpuMeasurement) -> (r: Result<CpuStat, ProbeError>)
        ensures
            interval_outcome(*self, *next, NANOS_PER_MINUTE as int, r),
    {
        self.calculate_interval(next, NANOS_PER_MINUTE)
    }
}

/// The grand total is the sum of the ten counters, each counted once: the
/// shares `100 * counter / total` of a non-zero total add up to exactly 100.
pub proof fn lemma_total_is_sum_of_counters(s: CpuStat)
    ensures
        grand_total(s) == counter(s, 0) + counter(s, 1) + counter(s, 2) + counter(s, 3) + counter(s, 4)
            + counter(s, 5) + counter(s, 6) + counter(s, 7) + counter(s, 8) + counter(s, 9),
        grand_total(s) > 0 ==> 100 * counter(s, 0) + 100 * counter(s, 1) + 100 * counter(s, 2) + 100
            * counter(s, 3) + 100 * counter(s, 4) + 100 * counter(s, 5) + 100 * counter(s, 6) + 100
            * counter(s, 7) + 100 * counter(s, 8) + 100 * counter(s, 9) == 100 * grand_total(s),
{
}

/// Two measurements in time order whose counters are all equal give an
/// interval in which every category is zero, whatever the reference length.
pub proof fn lemma_unchanged_counters_give_zero(
    earlier: CpuMeasurement,
    later: CpuMeasurement,
    reference: int,
    r: Result<CpuStat, ProbeError>,
)
    requires
        earlier.precise_time_ns < later.precise_time_ns,
        earlier.stat == later.stat,
        interval_outcome(earlier, later, reference, r),
    ensures
        r is Ok,
        forall|k: int| 0 <= k < 10 ==> counter(r->Ok_0, k) == 0,
{
    let elapsed = later.precise_time_ns - earlier.precise_time_ns;
    assert forall|k: int| 0 <= k < 10 implies counter_usable(earlier.stat, later.stat, k, reference, elapsed) by {
        assert(scaled(0, reference, elapsed) == 0);
    }
}

} // verus!
