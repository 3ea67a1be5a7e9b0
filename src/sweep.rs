//! What every probe produces: an ordered sequence of data points, and the
//! faults that end a probe before it measures anything.

use crate::chase::{build_cycle, chase, links_in_bounds};
use crate::clock::TickSource;
use vstd::prelude::*;

verus! {

/// Largest working set a probe may allocate, in bytes (1 GiB).
pub const MAX_WORKING_SET_BYTES: u64 = 1_073_741_824;

/// Size of one buffer element, in bytes.
pub const ELEMENT_BYTES: u64 = 8;

/// Largest working set a probe may allocate, in elements.
pub const MAX_ELEMENTS: u64 = 134_217_728;

/// One measurement: the swept parameter `x` and the measured value `y`
/// (a tick count, or a loop counter for the throughput probe).
#[derive(Clone, Copy, Debug, PartialEq, Eq, Structural)]
pub struct DataPoint {
    pub x: u64,
    pub y: u64,
}

/// Why a probe refused to run.
#[derive(Clone, Copy, Debug, PartialEq, Eq, Structural)]
pub enum ProbeFault {
    /// The sweep schedule is outside the probe's declared domain: not
    /// strictly increasing, or a value below the minimum or above the
    /// maximum the probe accepts.
    SweepDomain,
}

/// The swept values of a sequence of data points.
pub open spec fn xs_of(points: Seq<DataPoint>) -> Seq<u64> {
    points.map_values(|p: DataPoint| p.x)
}

pub open spec fn strictly_increasing(s: Seq<u64>) -> bool {
    forall|i: int, j: int| 0 <= i < j < s.len() ==> #[trigger] s[i] < #[trigger] s[j]
}

/// Strictly increasing, with every value in `lo..=hi`.
pub open spec fn sweep_within(s: Seq<u64>, lo: u64, hi: u64) -> bool {
    &&& strictly_increasing(s)
    &&& forall|i: int| 0 <= i < s.len() ==> lo <= #[trigger] s[i] <= hi
}

/// The sum of the measured values.
pub open spec fn sum_y(points: Seq<DataPoint>) -> int
    decreases points.len(),
{
    if points.len() == 0 {
        0
    } else {
        sum_y(points.drop_last()) + points.last().y
    }
}

/// Decides `sweep_within`.
pub fn validate_sweep(s: &Vec<u64>, lo: u64, hi: u64) -> (ok: bool)
    ensures
        ok == sweep_within(s@, lo, hi),
{
    let mut i: usize = 0;
    while i < s.len()
        invariant
            i <= s.len(),
            sweep_within(s@.take(i as int), lo, hi),
        decreases s.len() - i,
    {
        if s[i] < lo || s[i] > hi || (i > 0 && s[i - 1] >= s[i]) {
            proof {
                if !(s[i as int] < lo || s[i as int] > hi) {
                    assert(s@[i - 1] >= s@[i as int]);
                }
            }
            return false;
        }
        proof {
            let t = s@.take(i + 1);
            assert forall|a: int, b: int| 0 <= a < b < t.len() implies #[trigger] t[a]
                < #[trigger] t[b] by {
                if b < i {
                    assert(s@.take(i as int)[a] < s@.take(i as int)[b]);
                } else if a < i - 1 {
                    assert(s@.take(i as int)[a] < s@.take(i as int)[i - 1]);
                }
            }
            assert forall|a: int| 0 <= a < t.len() implies lo <= #[trigger] t[a] <= hi by {
                if a < i {
                    assert(s@.take(i as int)[a] == t[a]);
                }
            }
        }
        i = i + 1;
    }
    assert(s@.take(s.len() as int) =~= s@);
    true
}

/// `after` is `before` followed by further readings.
pub open spec fn extends(before: Seq<u64>, after: Seq<u64>) -> bool {
    &&& before.len() <= after.len()
    &&& after.take(before.len() as int) == before
}

/// The readings taken since a history of `before_len` readings.
pub open spec fn reads_since(after: Seq<u64>, before_len: nat) -> Seq<u64> {
    after.skip(before_len as int)
}

/// `reads` are the readings of a sweep: one before it, two around the timed
/// pass of each point (`y` is their difference), and one after it; the
/// elapsed ticks are the last reading minus the first.
pub open spec fn timed_run(reads: Seq<u64>, points: Seq<DataPoint>, elapsed: u64) -> bool {
    &&& reads.len() == 2 * points.len() + 2
    &&& forall|i: int|
        0 <= i < points.len() ==> #[trigger] points[i].y == reads[2 * i + 2] - reads[2 * i + 1]
    &&& elapsed == reads.last() - reads[0]
}

/// A first reading, a run of paired readings, and a last reading make a
/// timed run.
pub proof fn lemma_timed_run(
    h0: Seq<u64>,
    h1: Seq<u64>,
    h2: Seq<u64>,
    h3: Seq<u64>,
    first: u64,
    last: u64,
    points: Seq<DataPoint>,
)
    requires
        h1 == h0.push(first),
        extends(h1, h2),
        pair_diffs(reads_since(h2, h1.len()), points),
        h3 == h2.push(last),
        last >= first,
    ensures
        extends(h0, h3),
        timed_run(reads_since(h3, h0.len()), points, (last - first) as u64),
{
    let r = reads_since(h3, h0.len());
    let m = reads_since(h2, h1.len());
    assert(extends(h0, h1)) by {
        assert(h1.take(h0.len() as int) =~= h0);
    }
    assert(extends(h2, h3)) by {
        assert(h3.take(h2.len() as int) =~= h2);
    }
    lemma_extends_trans(h0, h1, h2);
    lemma_extends_trans(h0, h2, h3);
    assert(r[0] == first);
    assert(r.last() == last);
    assert forall|i: int| 0 <= i < points.len() implies #[trigger] points[i].y == r[2 * i + 2]
        - r[2 * i + 1] by {
        assert(r[2 * i + 2] == m[2 * i + 1]);
        assert(r[2 * i + 1] == m[2 * i]);
    }
}

/// `reads` come in pairs, one pair around the timed pass of each point, and
/// each point's `y` is the difference of its pair.
pub open spec fn pair_diffs(reads: Seq<u64>, points: Seq<DataPoint>) -> bool {
    &&& reads.len() == 2 * points.len()
    &&& forall|i: int|
        0 <= i < points.len() ==> #[trigger] points[i].y == reads[2 * i + 1] - reads[2 * i]
}

pub proof fn lemma_extends_trans(a: Seq<u64>, b: Seq<u64>, c: Seq<u64>)
    requires
        extends(a, b),
        extends(b, c),
    ensures
        extends(a, c),
        forall|k: int| 0 <= k < b.len() ==> #[trigger] c[k] == b[k],
{
    assert forall|k: int| 0 <= k < b.len() implies #[trigger] c[k] == b[k] by {
        assert(c.take(b.len() as int)[k] == c[k]);
    }
    assert forall|k: int| 0 <= k < a.len() implies #[trigger] c.take(a.len() as int)[k] == a[k] by {
        assert(b.take(a.len() as int)[k] == b[k]);
    }
    assert(c.take(a.len() as int) =~= a);
}

/// Each swept value `x` describes a cycle of `x / unit` blocks of `stride`
/// elements, chased for `laps` laps, that fits in the working-set limit.
pub open spec fn cycles_fit(values: Seq<u64>, unit: u64, stride: u64, laps: u64) -> bool {
    forall|i: int|
        0 <= i < values.len() ==> {
            &&& unit <= #[trigger] values[i]
            &&& (values[i] / unit) * stride <= MAX_ELEMENTS
            &&& (values[i] / unit) * laps <= u64::MAX
        }
}

/// Times one pass of `steps` links over `list`, after an untimed warm-up
/// pass that brings the working set into the caches it fits in.
pub fn timed_chase<C: TickSource>(clock: &mut C, list: &Vec<usize>, steps: u64) -> (ticks: u64)
    requires
        list.len() >= 1,
        links_in_bounds(list@),
    ensures
        final(clock).last_tick() >= old(clock).last_tick() + ticks,
        extends(old(clock).history(), final(clock).history()),
        final(clock).history().len() == old(clock).history().len() + 2,
        ticks == reads_since(final(clock).history(), old(clock).history().len())[1]
            - reads_since(final(clock).history(), old(clock).history().len())[0],
{
    let ghost h0 = clock.history();
    let _warm = chase(list, steps);
    let start = clock.read();
    let _timed = chase(list, steps);
    let end = clock.read();
    assert(clock.history().take(h0.len() as int) =~= h0);
    end - start
}

/// The pointer-chasing sweep shared by the cache and TLB probes. For each
/// value `x`, in order: build a random cycle of `x / unit` blocks spaced
/// `stride` elements apart, warm it, time `laps` laps of it, and record
/// `DataPoint { x, y }` where `y` is the ticks of the timed pass.
pub fn chase_sweep<C: TickSource>(
    clock: &mut C,
    values: &Vec<u64>,
    unit: u64,
    stride: u64,
    laps: u64,
) -> (points: Vec<DataPoint>)
    requires
        unit >= 1,
        stride >= 1,
        cycles_fit(values@, unit, stride, laps),
    ensures
        xs_of(points@) == values@,
        final(clock).last_tick() >= old(clock).last_tick(),
        sum_y(points@) <= final(clock).last_tick() - old(clock).last_tick(),
        extends(old(clock).history(), final(clock).history()),
        pair_diffs(reads_since(final(clock).history(), old(clock).history().len()), points@),
{
    let ghost h0 = clock.history();
    let mut points: Vec<DataPoint> = Vec::new();
    let mut i: usize = 0;
    assert(clock.history().take(h0.len() as int) =~= h0);
    while i < values.len()
        invariant
            i <= values.len(),
            unit >= 1,
            stride >= 1,
            cycles_fit(values@, unit, stride, laps),
            old(clock).last_tick() <= clock.last_tick(),
            points@.len() == i,
            xs_of(points@) == values@.take(i as int),
            sum_y(points@) <= clock.last_tick() - old(clock).last_tick(),
            h0 == old(clock).history(),
            extends(h0, clock.history()),
            clock.history().len() == h0.len() + 2 * i,
            forall|j: int|
                0 <= j < i ==> #[trigger] points@[j].y == clock.history()[h0.len() + 2 * j + 1]
                    - clock.history()[h0.len() + 2 * j],
        decreases values.len() - i,
    {
        let x = values[i];
        assert(unit <= values@[i as int]);
        let blocks = x / unit;
        assert(blocks >= 1) by (nonlinear_arith)
            requires
                unit <= x,
                unit >= 1,
                blocks == x / unit,
        ;
        assert(blocks <= blocks * stride && stride <= blocks * stride) by (nonlinear_arith)
            requires
                stride >= 1,
                blocks >= 1,
        ;
        assert(blocks * stride <= MAX_ELEMENTS);
        let list = build_cycle(blocks as usize, stride as usize);
        let ghost h1 = clock.history();
        let ticks = timed_chase(clock, &list, blocks * laps);
        let ghost prev = points@;
        points.push(DataPoint { x, y: ticks });
        assert(points@.drop_last() == prev);
        proof {
            lemma_extends_trans(h0, h1, clock.history());
            assert(reads_since(clock.history(), h1.len())[0] == clock.history()[h1.len() as int]);
            assert(reads_since(clock.history(), h1.len())[1] == clock.history()[h1.len() as int + 1]);
            assert forall|j: int| 0 <= j < i + 1 implies #[trigger] points@[j].y
                == clock.history()[h0.len() + 2 * j + 1] - clock.history()[h0.len() + 2 * j] by {
                if j < i {
                    assert(points@[j] == prev[j]);
                }
            }
        }
        assert forall|k: int| 0 <= k < i + 1 implies #[trigger] xs_of(points@)[k]
            == values@.take(i + 1)[k] by {
            if k < i {
                assert(xs_of(prev)[k] == values@.take(i as int)[k]);
                assert(points@[k] == prev[k]);
            }
        }
        assert(xs_of(points@) =~= values@.take(i + 1));
        i = i + 1;
    }
    assert(values@.take(values.len() as int) =~= values@);
    proof {
        let r = reads_since(clock.history(), h0.len());
        assert forall|j: int| 0 <= j < points@.len() implies #[trigger] points@[j].y == r[2 * j
            + 1] - r[2 * j] by {
            assert(r[2 * j + 1] == clock.history()[h0.len() + 2 * j + 1]);
            assert(r[2 * j] == clock.history()[h0.len() + 2 * j]);
        }
    }
    points
}

} // verus!
