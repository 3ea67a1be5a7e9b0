//! Cache capacity: a latency-versus-working-set-size curve, whose steps mark
//! where the working set stops fitting in a cache level.

use crate::benchmark::{BenchmarkResult, BenchmarkType};
use crate::clock::TickSource;
use crate::sweep::{
    extends, lemma_timed_run, reads_since, timed_run,
    chase_sweep, validate_sweep, strictly_increasing, sum_y, sweep_within, xs_of, ProbeFault,
    ELEMENT_BYTES, MAX_ELEMENTS, MAX_WORKING_SET_BYTES,
};
use vstd::prelude::*;

verus! {

/// Number of sizes in the default schedule.
pub const DEFAULT_SIZE_COUNT: usize = 146;

/// The i-th size of the default schedule, in KiB: 1 KiB, then every 4 KiB
/// up to 512 KiB, then 1 MiB, then every 2 MiB up to 32 MiB. Small sizes
/// are dense because L1 boundaries cluster there.
pub open spec fn default_size_kib(i: int) -> int {
    if i == 0 {
        1
    } else if i <= 128 {
        4 * i
    } else if i == 129 {
        1024
    } else {
        2048 * (i - 129)
    }
}

/// The default schedule, in bytes.
pub open spec fn default_cache_sizes() -> Seq<u64> {
    Seq::new(DEFAULT_SIZE_COUNT as nat, |i: int| (default_size_kib(i) * 1024) as u64)
}

/// Number of sizes in the coarse schedule.
pub const COARSE_SIZE_COUNT: usize = 97;

/// The i-th size of the coarse schedule, in KiB: every 10 KiB from 10 to
/// 140, every 50 KiB from 150 to 1950, every 500 KiB from 2000 to 24500.
pub open spec fn coarse_size_kib(i: int) -> int {
    if i < 14 {
        10 * (i + 1)
    } else if i < 51 {
        150 + 50 * (i - 14)
    } else {
        2000 + 500 * (i - 51)
    }
}

/// The coarse schedule, in bytes.
pub open spec fn coarse_cache_sizes() -> Seq<u64> {
    Seq::new(COARSE_SIZE_COUNT as nat, |i: int| (coarse_size_kib(i) * 1024) as u64)
}

fn coarse_kib_at(i: usize) -> (k: u64)
    requires
        i < COARSE_SIZE_COUNT,
    ensures
        k == coarse_size_kib(i as int),
{
    if i < 14 {
        10 * (i as u64 + 1)
    } else if i < 51 {
        150 + 50 * (i as u64 - 14)
    } else {
        2000 + 500 * (i as u64 - 51)
    }
}

fn size_kib_at(i: usize) -> (k: u64)
    requires
        i < DEFAULT_SIZE_COUNT,
    ensures
        k == default_size_kib(i as int),
{
    if i == 0 {
        1
    } else if i <= 128 {
        4 * i as u64
    } else if i == 129 {
        1024
    } else {
        2048 * (i as u64 - 129)
    }
}

/// Sweeps the working-set size. For each size S (bytes) it builds a random
/// cycle through all S / 8 elements, chases it once to warm the caches, and
/// records the ticks of a second, timed chase: `DataPoint { x: S, y: ticks }`.
pub struct CacheSizeProfiler {
    /// Working-set sizes in bytes, in sweep order.
    pub sizes: Vec<u64>,
}

impl CacheSizeProfiler {
    /// The sizes this probe accepts: strictly increasing, each at least one
    /// element and at most `MAX_WORKING_SET_BYTES`.
    pub open spec fn valid(&self) -> bool {
        sweep_within(self.sizes@, ELEMENT_BYTES, MAX_WORKING_SET_BYTES)
    }

    /// The probe with its default schedule.
    pub fn new() -> (p: CacheSizeProfiler)
        ensures
            p.sizes@ == default_cache_sizes(),
    {
        let mut sizes: Vec<u64> = Vec::new();
        let mut i: usize = 0;
        while i < DEFAULT_SIZE_COUNT
            invariant
                i <= DEFAULT_SIZE_COUNT,
                sizes@ == default_cache_sizes().take(i as int),
            decreases DEFAULT_SIZE_COUNT - i,
        {
            let k = size_kib_at(i);
            sizes.push(k * 1024);
            assert(sizes@ =~= default_cache_sizes().take(i + 1));
            i = i + 1;
        }
        assert(sizes@ =~= default_cache_sizes());
        CacheSizeProfiler { sizes }
    }

    /// The probe with the coarse schedule, 10 KiB to 24500 KiB.
    pub fn coarse() -> (p: CacheSizeProfiler)
        ensures
            p.sizes@ == coarse_cache_sizes(),
            p.valid(),
    {
        let mut sizes: Vec<u64> = Vec::new();
        let mut i: usize = 0;
        while i < COARSE_SIZE_COUNT
            invariant
                i <= COARSE_SIZE_COUNT,
                sizes@ == coarse_cache_sizes().take(i as int),
            decreases COARSE_SIZE_COUNT - i,
        {
            let k = coarse_kib_at(i);
            sizes.push(k * 1024);
            assert(sizes@ =~= coarse_cache_sizes().take(i + 1));
            i = i + 1;
        }
        assert(sizes@ =~= coarse_cache_sizes());
        proof {
            let c = coarse_cache_sizes();
            assert forall|i: int| 0 <= i < c.len() implies ELEMENT_BYTES <= #[trigger] c[i]
                <= MAX_WORKING_SET_BYTES by {
                assert(10 <= coarse_size_kib(i) <= 24500);
            }
            assert forall|i: int, j: int| 0 <= i < j < c.len() implies #[trigger] c[i]
                < #[trigger] c[j] by {
                assert(coarse_size_kib(i) < coarse_size_kib(j));
                assert(10 <= coarse_size_kib(i) <= 24500);
                assert(10 <= coarse_size_kib(j) <= 24500);
            }
        }
        CacheSizeProfiler { sizes }
    }

    /// The probe with the given schedule (bytes, in sweep order).
    pub fn with_sizes(sizes: Vec<u64>) -> (p: CacheSizeProfiler)
        ensures
            p.sizes@ == sizes@,
    {
        CacheSizeProfiler { sizes }
    }

    pub fn get_name(&self) -> (name: &'static str)
        ensures
            name@ == "Cache size"@,
    {
        "Cache size"
    }

    /// Runs the sweep. Fails, without reading the clock, exactly when the
    /// schedule is invalid.
    pub fn run<C: TickSource>(&self, clock: &mut C) -> (r: Result<BenchmarkResult, ProbeFault>)
        ensures
            r is Err <==> !self.valid(),
            r is Err ==> r == Err::<BenchmarkResult, ProbeFault>(ProbeFault::SweepDomain),
            r is Err ==> *final(clock) == *old(clock),
            r matches Ok(res) ==> {
                &&& res.benchmark == BenchmarkType::CacheSize
                &&& xs_of(res.data_points@) == self.sizes@
                &&& strictly_increasing(xs_of(res.data_points@))
                &&& sum_y(res.data_points@) <= res.elapsed_ticks
                &&& final(clock).last_tick() >= old(clock).last_tick() + res.elapsed_ticks
                &&& timed_run(
                    reads_since(final(clock).history(), old(clock).history().len()),
                    res.data_points@,
                    res.elapsed_ticks,
                )
            },
            extends(old(clock).history(), final(clock).history()),
    {
        proof {
            assert(old(clock).history().take(old(clock).history().len() as int) =~= old(
                clock,
            ).history());
        }
        if !validate_sweep(&self.sizes, ELEMENT_BYTES, MAX_WORKING_SET_BYTES) {
            return Err(ProbeFault::SweepDomain);
        }
        proof {
            assert forall|i: int| 0 <= i < self.sizes@.len() implies {
                &&& ELEMENT_BYTES <= #[trigger] self.sizes@[i]
                &&& (self.sizes@[i] / ELEMENT_BYTES) * 1 <= MAX_ELEMENTS
                &&& (self.sizes@[i] / ELEMENT_BYTES) * 1 <= u64::MAX
            } by {
                let x = self.sizes@[i];
                assert(x / 8 <= 134_217_728) by (nonlinear_arith)
                    requires
                        x <= 1_073_741_824,
                ;
            }
        }
        let ghost h0 = clock.history();
        let first = clock.read();
        let ghost h1 = clock.history();
        let points = chase_sweep(clock, &self.sizes, ELEMENT_BYTES, 1, 1);
        let ghost h2 = clock.history();
        let last = clock.read();
        proof {
            lemma_timed_run(h0, h1, h2, clock.history(), first, last, points@);
        }
        Ok(BenchmarkResult {
            benchmark: BenchmarkType::CacheSize,
            data_points: points,
            elapsed_ticks: last - first,
        })
    }
}

} // verus!
