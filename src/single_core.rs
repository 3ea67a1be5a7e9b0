//! Single-core throughput: how far a busy counter gets within a fixed window
//! of clock ticks, sampled many times in a row so that frequency boost and
//! throttling show up as changes along the sequence.

use crate::benchmark::{BenchmarkResult, BenchmarkType};
use crate::clock::TickSource;
use crate::sweep::{
    extends, lemma_extends_trans, reads_since, strictly_increasing, xs_of, DataPoint, ProbeFault,
};
use vstd::prelude::*;

verus! {

/// Most samples a run may take.
pub const MAX_SAMPLES: u64 = 1_048_576;

/// Rounds of the default probe.
pub const DEFAULT_ROUNDS: u64 = 3;

/// Samples per round of the default probe.
pub const DEFAULT_ITERATIONS: u64 = 500;

/// Length of one sample's window, in ticks, for the default probe.
pub const DEFAULT_WINDOW: u64 = 1000;

/// Idle time between two rounds of the default probe, in milliseconds.
pub const DEFAULT_GAP_MILLIS: u64 = 100;

/// Waits between two rounds of samples, so that the core can settle back to
/// its base frequency. The wait is a fixed time, not measured on the clock.
pub trait RoundGap {
    fn wait(&mut self, millis: u64);
}

/// Rounds run back to back, with no wait between them.
pub struct NoGap;

impl RoundGap for NoGap {
    fn wait(&mut self, _millis: u64) {
    }
}

/// Highest count one sample may reach in the default probe. A window that
/// never closes (a clock that stopped) ends there instead of hanging.
pub const DEFAULT_SPIN_LIMIT: u64 = 1_000_000_000;

/// The tick at which a sample that started at `start` ends.
pub open spec fn deadline_of(start: u64, window: u64) -> int {
    if start + window > u64::MAX {
        u64::MAX as int
    } else {
        start + window
    }
}

/// How many readings a sample that counted `count` turns takes: the first,
/// one per turn, and the one that found the deadline passed, unless the
/// spin limit ended the sample first.
pub open spec fn sample_len(count: u64, spin_limit: u64) -> int {
    if count < spin_limit {
        count + 2
    } else {
        count + 1
    }
}

/// `reads` are the readings of one sample that counted `count` turns: each
/// turn read the clock before the deadline, and the sample stopped at the
/// first reading at or past it, or when the count reached the spin limit.
pub open spec fn sample_reads(reads: Seq<u64>, window: u64, spin_limit: u64, count: u64) -> bool {
    &&& count <= spin_limit
    &&& reads.len() == sample_len(count, spin_limit)
    &&& forall|j: int| 1 <= j <= count ==> #[trigger] reads[j] < deadline_of(reads[0], window)
    &&& count < spin_limit ==> reads[count + 1] >= deadline_of(reads[0], window)
}

/// `reads` split, in order, into the readings of samples that counted
/// `counts`.
pub open spec fn samples_reads(reads: Seq<u64>, counts: Seq<u64>, window: u64, spin_limit: u64) -> bool
    decreases counts.len(),
{
    if counts.len() == 0 {
        reads.len() == 0
    } else {
        let n = sample_len(counts.last(), spin_limit);
        &&& n <= reads.len()
        &&& sample_reads(
            reads.subrange(reads.len() - n, reads.len() as int),
            window,
            spin_limit,
            counts.last(),
        )
        &&& samples_reads(
            reads.subrange(0, reads.len() - n),
            counts.drop_last(),
            window,
            spin_limit,
        )
    }
}

/// The measured values of a sequence of data points.
pub open spec fn ys_of(points: Seq<DataPoint>) -> Seq<u64> {
    points.map_values(|p: DataPoint| p.y)
}

/// `reads` are the readings of a whole run: a first one, those of each
/// sample in turn (whose counts are the points' `y`), and a last one; the
/// elapsed ticks are the last reading minus the first.
pub open spec fn sampled_run(
    reads: Seq<u64>,
    points: Seq<DataPoint>,
    elapsed: u64,
    window: u64,
    spin_limit: u64,
) -> bool {
    &&& reads.len() >= 2
    &&& elapsed == reads.last() - reads[0]
    &&& samples_reads(reads.subrange(1, reads.len() - 1), ys_of(points), window, spin_limit)
}

/// Runs `rounds * iterations` samples back to back. Sample `k` counts how
/// many times a busy loop turns before the clock passes `window` ticks
/// beyond its first reading, and is recorded as `DataPoint { x: k, y: count }`.
pub struct SingleCorePerformanceProfiler {
    pub rounds: u64,
    pub iterations: u64,
    /// Ticks per sample.
    pub window: u64,
    /// Highest count a sample may reach.
    pub spin_limit: u64,
    /// Idle time between rounds, in milliseconds.
    pub gap_millis: u64,
}

impl SingleCorePerformanceProfiler {
    /// The configurations this probe accepts: at most `MAX_SAMPLES` samples.
    pub open spec fn valid(&self) -> bool {
        self.rounds * self.iterations <= MAX_SAMPLES
    }

    /// The probe with its default configuration.
    pub fn new() -> (p: SingleCorePerformanceProfiler)
        ensures
            p.rounds == DEFAULT_ROUNDS,
            p.iterations == DEFAULT_ITERATIONS,
            p.window == DEFAULT_WINDOW,
            p.spin_limit == DEFAULT_SPIN_LIMIT,
            p.gap_millis == DEFAULT_GAP_MILLIS,
    {
        SingleCorePerformanceProfiler {
            rounds: DEFAULT_ROUNDS,
            iterations: DEFAULT_ITERATIONS,
            window: DEFAULT_WINDOW,
            spin_limit: DEFAULT_SPIN_LIMIT,
            gap_millis: DEFAULT_GAP_MILLIS,
        }
    }

    /// The probe with the given configuration and no gap between rounds.
    pub fn with_config(rounds: u64, iterations: u64, window: u64, spin_limit: u64) -> (p:
        SingleCorePerformanceProfiler)
        ensures
            p.rounds == rounds,
            p.iterations == iterations,
            p.window == window,
            p.spin_limit == spin_limit,
            p.gap_millis == 0,
    {
        SingleCorePerformanceProfiler { rounds, iterations, window, spin_limit, gap_millis: 0 }
    }

    pub fn get_name(&self) -> (name: &'static str)
        ensures
            name@ == "Single-core performance"@,
    {
        "Single-core performance"
    }

    /// Counts busy-loop turns until the clock passes `window` ticks beyond
    /// its first reading, or the count reaches `spin_limit`.
    fn sample<C: TickSource>(&self, clock: &mut C) -> (count: u64)
        ensures
            count <= self.spin_limit,
            final(clock).last_tick() >= old(clock).last_tick(),
            extends(old(clock).history(), final(clock).history()),
            sample_reads(
                reads_since(final(clock).history(), old(clock).history().len()),
                self.window,
                self.spin_limit,
                count,
            ),
    {
        let ghost h0 = clock.history();
        let ghost b = h0.len() as int;
        let start = clock.read();
        let deadline = start.saturating_add(self.window);
        let mut count: u64 = 0;
        assert(clock.history().take(b) =~= h0);
        loop
            invariant_except_break
                clock.history().len() == b + 1 + count,
            invariant
                count <= self.spin_limit,
                old(clock).last_tick() <= clock.last_tick(),
                h0 == old(clock).history(),
                b == h0.len(),
                deadline == deadline_of(start, self.window),
                extends(h0, clock.history()),
                clock.history()[b] == start,
                clock.history().len() >= b + 1 + count,
                forall|j: int| 1 <= j <= count ==> #[trigger] clock.history()[b + j] < deadline,
            ensures
                count <= self.spin_limit,
                old(clock).last_tick() <= clock.last_tick(),
                extends(h0, clock.history()),
                clock.history()[b] == start,
                forall|j: int| 1 <= j <= count ==> #[trigger] clock.history()[b + j] < deadline,
                clock.history().len() == b + sample_len(count, self.spin_limit),
                count < self.spin_limit ==> clock.history()[b + count + 1] >= deadline,
            decreases self.spin_limit - count,
        {
            let ghost hp = clock.history();
            if count >= self.spin_limit {
                break ;
            }
            let now = clock.read();
            proof {
                assert(clock.history().take(b) =~= h0) by {
                    assert(hp.take(b) == h0);
                    assert forall|k: int| 0 <= k < b implies clock.history()[k] == hp[k] by {
                        assert(hp.take(b)[k] == hp[k]);
                    }
                }
                assert forall|j: int| 1 <= j <= count implies #[trigger] clock.history()[b + j]
                    < deadline by {
                    assert(clock.history()[b + j] == hp[b + j]);
                }
                assert(clock.history()[b] == hp[b]);
            }
            if now >= deadline {
                break ;
            }
            count = count + 1;
        }
        proof {
            let r = reads_since(clock.history(), b as nat);
            assert(r[0] == start);
            assert forall|j: int| 1 <= j <= count implies #[trigger] r[j] < deadline_of(
                r[0],
                self.window,
            ) by {
                assert(r[j] == clock.history()[b + j]);
            }
            if count < self.spin_limit {
                assert(r[count + 1] == clock.history()[b + count + 1]);
            }
        }
        count
    }

    /// Runs all samples, waiting `gap_millis` through `gap` between two
    /// rounds. Fails, without reading the clock, exactly when the
    /// configuration is invalid.
    pub fn run<C: TickSource, G: RoundGap>(&self, clock: &mut C, gap: &mut G) -> (r: Result<
        BenchmarkResult,
        ProbeFault,
    >)
        ensures
            r is Err <==> !self.valid(),
            r is Err ==> r == Err::<BenchmarkResult, ProbeFault>(ProbeFault::SweepDomain),
            r is Err ==> *final(clock) == *old(clock),
            r matches Ok(res) ==> {
                &&& res.benchmark == BenchmarkType::SinglePerformance
                &&& res.data_points@.len() == self.rounds * self.iterations
                &&& forall|k: int|
                    0 <= k < res.data_points@.len() ==> #[trigger] res.data_points@[k].x == k
                        && res.data_points@[k].y <= self.spin_limit
                &&& strictly_increasing(xs_of(res.data_points@))
                &&& final(clock).last_tick() >= old(clock).last_tick() + res.elapsed_ticks
                &&& sampled_run(
                    reads_since(final(clock).history(), old(clock).history().len()),
                    res.data_points@,
                    res.elapsed_ticks,
                    self.window,
                    self.spin_limit,
                )
            },
            extends(old(clock).history(), final(clock).history()),
    {
        proof {
            assert(old(clock).history().take(old(clock).history().len() as int) =~= old(
                clock,
            ).history());
        }
        let total = match self.rounds.checked_mul(self.iterations) {
            Some(t) => t,
            None => {
                return Err(ProbeFault::SweepDomain);
            },
        };
        if total > MAX_SAMPLES {
            return Err(ProbeFault::SweepDomain);
        }
        let ghost h0 = clock.history();
        let first = clock.read();
        let ghost h1 = clock.history();
        let ghost b1 = h1.len() as int;
        assert(clock.history().take(b1) =~= h1);
        let mut points: Vec<DataPoint> = Vec::new();
        let mut k: u64 = 0;
        assert(clock.history().subrange(b1, clock.history().len() as int) =~= Seq::<u64>::empty());
        assert(ys_of(points@) =~= Seq::<u64>::empty());
        while k < total
            invariant
                k <= total,
                total == self.rounds * self.iterations,
                points@.len() == k,
                forall|j: int|
                    0 <= j < points@.len() ==> #[trigger] points@[j].x == j && points@[j].y
                        <= self.spin_limit,
                first <= clock.last_tick(),
                old(clock).last_tick() <= first,
                h1 == h0.push(first),
                b1 == h1.len(),
                extends(h1, clock.history()),
                samples_reads(
                    clock.history().subrange(b1, clock.history().len() as int),
                    ys_of(points@),
                    self.window,
                    self.spin_limit,
                ),
            decreases total - k,
        {
            if k > 0 && self.iterations > 0 && k % self.iterations == 0 {
                gap.wait(self.gap_millis);
            }
            let ghost hp = clock.history();
            let ghost prev = points@;
            let count = self.sample(clock);
            points.push(DataPoint { x: k, y: count });
            proof {
                let hn = clock.history();
                lemma_extends_trans(h1, hp, hn);
                let seg = reads_since(hn, hp.len());
                let all = hn.subrange(b1, hn.len() as int);
                let n = sample_len(count, self.spin_limit);
                assert(ys_of(points@).last() == count);
                assert(ys_of(points@).drop_last() =~= ys_of(prev));
                assert(all.subrange(all.len() - n, all.len() as int) =~= seg);
                assert(all.subrange(0, all.len() - n) =~= hp.subrange(b1, hp.len() as int));
            }
            k = k + 1;
        }
        proof {
            let xs = xs_of(points@);
            assert forall|i: int, j: int| 0 <= i < j < xs.len() implies #[trigger] xs[i]
                < #[trigger] xs[j] by {
                assert(points@[i].x == i);
                assert(points@[j].x == j);
            }
        }
        let ghost h2 = clock.history();
        let last = clock.read();
        proof {
            let h3 = clock.history();
            assert(h3.take(h2.len() as int) =~= h2);
            lemma_extends_trans(h1, h2, h3);
            assert(h1.take(h0.len() as int) =~= h0);
            lemma_extends_trans(h0, h1, h3);
            let r = reads_since(h3, h0.len());
            assert(r.subrange(1, r.len() - 1) =~= h2.subrange(b1, h2.len() as int));
        }
        Ok(BenchmarkResult {
            benchmark: BenchmarkType::SinglePerformance,
            data_points: points,
            elapsed_ticks: last - first,
        })
    }
}

} // verus!
