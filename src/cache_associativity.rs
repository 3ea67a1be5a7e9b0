//! Cache associativity: W blocks placed one cache-set stride apart all map
//! to the same set, so the per-access latency rises once W exceeds the
//! number of ways in a set.

use crate::benchmark::{BenchmarkResult, BenchmarkType};
use crate::clock::TickSource;
use crate::sweep::{
    extends, lemma_timed_run, reads_since,
    chase_sweep, validate_sweep, strictly_increasing, sum_y, sweep_within, xs_of, DataPoint,
    ProbeFault, MAX_ELEMENTS,
};
use vstd::arithmetic::div_mod::lemma_div_multiples_vanish;
use vstd::prelude::*;

verus! {

/// Distance between two blocks, in elements (256 KiB).
pub const WAY_STRIDE: u64 = 32_768;

/// Most blocks a sweep may use (the working-set limit in strides).
pub const MAX_WAYS: u64 = 4096;

/// Most laps a timed chase may run.
pub const MAX_ROUNDS: u64 = 4_294_967_296;

/// Laps of the timed chase in the default probe.
pub const DEFAULT_ROUNDS: u64 = 4_194_304;

/// Number of way counts in the default schedule.
pub const DEFAULT_WAY_COUNT: usize = 31;

/// The default schedule: 1, 2, ..., 31 ways.
pub open spec fn default_ways() -> Seq<u64> {
    Seq::new(DEFAULT_WAY_COUNT as nat, |i: int| (i + 1) as u64)
}

/// Like `timed_run`, but each point's `y` is its pair's difference divided
/// by its number of ways `x`.
pub open spec fn per_way_run(reads: Seq<u64>, points: Seq<DataPoint>, elapsed: u64) -> bool {
    &&& reads.len() == 2 * points.len() + 2
    &&& forall|i: int|
        0 <= i < points.len() ==> #[trigger] points[i].y == (reads[2 * i + 2] - reads[2 * i
            + 1]) / (points[i].x as int)
    &&& elapsed == reads.last() - reads[0]
}

/// With a memory model in which a timed pass over `x` blocks costs `x`
/// times a per-access latency that is `lo` up to `ways` blocks and `hi`
/// beyond, each recorded `y` is that latency: flat while the blocks fit in
/// a set, and higher as soon as they exceed its ways.
pub proof fn lemma_associativity_boundary(
    reads: Seq<u64>,
    points: Seq<DataPoint>,
    elapsed: u64,
    ways: u64,
    lo: u64,
    hi: u64,
)
    requires
        per_way_run(reads, points, elapsed),
        lo < hi,
        forall|i: int| 0 <= i < points.len() ==> #[trigger] points[i].x >= 1,
        forall|i: int|
            0 <= i < points.len() ==> reads[2 * i + 2] - reads[2 * i + 1] == #[trigger] points[i].x
                * (if points[i].x <= ways {
                lo
            } else {
                hi
            }),
    ensures
        forall|i: int| 0 <= i < points.len() && points[i].x <= ways ==> #[trigger] points[i].y == lo,
        forall|i: int| 0 <= i < points.len() && points[i].x > ways ==> #[trigger] points[i].y == hi,
{
    assert forall|i: int| 0 <= i < points.len() implies #[trigger] points[i].y == (if points[i].x
        <= ways {
        lo
    } else {
        hi
    }) by {
        let l: int = if points[i].x <= ways {
            lo as int
        } else {
            hi as int
        };
        lemma_div_multiples_vanish(l, points[i].x as int);
    }
}

/// The data point recorded for `ways` blocks whose timed chase took
/// `ticks`: the ticks per block.
pub fn associativity_point(ways: u64, ticks: u64) -> (p: DataPoint)
    requires
        ways >= 1,
    ensures
        p.x == ways,
        p.y == ticks / ways,
{
    DataPoint { x: ways, y: ticks / ways }
}

/// Sweeps the number of ways W. For each W it builds a random cycle through
/// W blocks spaced `WAY_STRIDE` apart, warms it, times `rounds` laps of it,
/// and records `DataPoint { x: W, y: ticks / W }`.
pub struct CacheAssociativityProfiler {
    /// Way counts, in sweep order.
    pub ways: Vec<u64>,
    /// Laps of each timed chase.
    pub rounds: u64,
}

impl CacheAssociativityProfiler {
    /// The configurations this probe accepts: way counts strictly
    /// increasing, each between 1 and `MAX_WAYS`, and at most `MAX_ROUNDS`
    /// laps.
    pub open spec fn valid(&self) -> bool {
        &&& sweep_within(self.ways@, 1, MAX_WAYS)
        &&& self.rounds <= MAX_ROUNDS
    }

    /// The probe with its default schedule.
    pub fn new() -> (p: CacheAssociativityProfiler)
        ensures
            p.ways@ == default_ways(),
            p.rounds == DEFAULT_ROUNDS,
    {
        let mut ways: Vec<u64> = Vec::new();
        let mut i: usize = 0;
        while i < DEFAULT_WAY_COUNT
            invariant
                i <= DEFAULT_WAY_COUNT,
                ways@ == default_ways().take(i as int),
            decreases DEFAULT_WAY_COUNT - i,
        {
            ways.push(i as u64 + 1);
            assert(ways@ =~= default_ways().take(i + 1));
            i = i + 1;
        }
        assert(ways@ =~= default_ways());
        CacheAssociativityProfiler { ways, rounds: DEFAULT_ROUNDS }
    }

    /// The probe with the given way counts and laps.
    pub fn with_ways(ways: Vec<u64>, rounds: u64) -> (p: CacheAssociativityProfiler)
        ensures
            p.ways@ == ways@,
            p.rounds == rounds,
    {
        CacheAssociativityProfiler { ways, rounds }
    }

    pub fn get_name(&self) -> (name: &'static str)
        ensures
            name@ == "Cache associativity"@,
    {
        "Cache associativity"
    }

    /// Runs the sweep. Fails, without reading the clock, exactly when the
    /// configuration is invalid.
    pub fn run<C: TickSource>(&self, clock: &mut C) -> (r: Result<BenchmarkResult, ProbeFault>)
        ensures
            r is Err <==> !self.valid(),
            r is Err ==> r == Err::<BenchmarkResult, ProbeFault>(ProbeFault::SweepDomain),
            r is Err ==> *final(clock) == *old(clock),
            r matches Ok(res) ==> {
                &&& res.benchmark == BenchmarkType::CacheAssociativity
                &&& xs_of(res.data_points@) == self.ways@
                &&& strictly_increasing(xs_of(res.data_points@))
                &&& sum_y(res.data_points@) <= res.elapsed_ticks
                &&& final(clock).last_tick() >= old(clock).last_tick() + res.elapsed_ticks
                &&& per_way_run(
                    reads_since(final(clock).history(), old(clock).history().len()),
                    res.data_points@,
                    res.elapsed_ticks,
                )
            },
            extends(old(clock).history(), final(clock).history()),
    {
        proof {
            assert(old(clock).history().take(old(clock).history().len() as int) =~= old(
                clock,
            ).history());
        }
        if !validate_sweep(&self.ways, 1, MAX_WAYS) || self.rounds > MAX_ROUNDS {
            return Err(ProbeFault::SweepDomain);
        }
        proof {
            assert forall|i: int| 0 <= i < self.ways@.len() implies {
                &&& 1 <= #[trigger] self.ways@[i]
                &&& (self.ways@[i] / 1) * WAY_STRIDE <= MAX_ELEMENTS
                &&& (self.ways@[i] / 1) * self.rounds <= u64::MAX
            } by {
                let x = self.ways@[i];
                let r = self.rounds;
                assert(x / 1 == x);
                assert(x * r <= 4096 * 4_294_967_296) by (nonlinear_arith)
                    requires
                        x <= 4096,
                        r <= 4_294_967_296,
                ;
            }
        }
        let ghost h0 = clock.history();
        let first = clock.read();
        let ghost h1 = clock.history();
        let timed = chase_sweep(clock, &self.ways, 1, WAY_STRIDE, self.rounds);
        let mut points: Vec<DataPoint> = Vec::new();
        let mut i: usize = 0;
        while i < timed.len()
            invariant
                i <= timed.len(),
                xs_of(timed@) == self.ways@,
                sweep_within(self.ways@, 1, MAX_WAYS),
                points@.len() == i,
                xs_of(points@) == self.ways@.take(i as int),
                sum_y(points@) <= sum_y(timed@.take(i as int)),
                forall|j: int|
                    0 <= j < i ==> #[trigger] points@[j].y == timed@[j].y / timed@[j].x,
            decreases timed.len() - i,
        {
            let t = timed[i];
            assert(t.x == xs_of(timed@)[i as int]);
            let p = associativity_point(t.x, t.y);
            let ghost prev = points@;
            points.push(p);
            proof {
                assert(points@.drop_last() == prev);
                assert(timed@.take(i + 1).drop_last() =~= timed@.take(i as int));
                assert(t.y / t.x <= t.y) by (nonlinear_arith)
                    requires
                        t.x >= 1,
                ;
                assert forall|j: int| 0 <= j < i + 1 implies #[trigger] points@[j].y
                    == timed@[j].y / timed@[j].x by {
                    if j < i {
                        assert(points@[j] == prev[j]);
                    }
                }
                assert forall|k: int| 0 <= k < i + 1 implies #[trigger] xs_of(points@)[k]
                    == self.ways@.take(i + 1)[k] by {
                    if k < i {
                        assert(xs_of(prev)[k] == self.ways@.take(i as int)[k]);
                        assert(points@[k] == prev[k]);
                    }
                }
                assert(xs_of(points@) =~= self.ways@.take(i + 1));
            }
            i = i + 1;
        }
        assert(timed@.take(timed.len() as int) =~= timed@);
        assert(self.ways@.take(self.ways.len() as int) =~= self.ways@);
        let ghost h2 = clock.history();
        let last = clock.read();
        proof {
            lemma_timed_run(h0, h1, h2, clock.history(), first, last, timed@);
            let r = reads_since(clock.history(), h0.len());
            assert forall|j: int| 0 <= j < points@.len() implies #[trigger] points@[j].y == (r[2
                * j + 2] - r[2 * j + 1]) / (points@[j].x as int) by {
                assert(timed@[j].y == r[2 * j + 2] - r[2 * j + 1]);
                assert(points@[j].x == xs_of(points@)[j]);
                assert(timed@[j].x == xs_of(timed@)[j]);
            }
        }
        Ok(BenchmarkResult {
            benchmark: BenchmarkType::CacheAssociativity,
            data_points: points,
            elapsed_ticks: last - first,
        })
    }
}

} // verus!
