//! The closed set of probes, their results, and the dispatch between them.

use crate::cache_associativity::{per_way_run, default_ways, CacheAssociativityProfiler, MAX_WAYS};
use crate::cache_size::{default_cache_sizes, default_size_kib, CacheSizeProfiler};
use crate::clock::TickSource;
use crate::page_size::{
    is_offset_sweep, PageSizeProfiler, DEFAULT_BUFFER_BYTES, DEFAULT_START, DEFAULT_STEP,
};
use crate::single_core::{
    sampled_run, NoGap, RoundGap, SingleCorePerformanceProfiler, DEFAULT_ITERATIONS, DEFAULT_ROUNDS,
    DEFAULT_SPIN_LIMIT, DEFAULT_WINDOW,
};
use crate::sweep::{
    extends, reads_since, sum_y, timed_run,
    strictly_increasing, sweep_within, xs_of, DataPoint, ProbeFault, ELEMENT_BYTES,
    MAX_WORKING_SET_BYTES,
};
use crate::tlb_size::{default_tlb_entries, TlbSizeProfiler, MAX_TLB_ENTRIES};
use vstd::prelude::*;

verus! {

/// The kinds of probe a session can run.
#[derive(Clone, Copy, Debug, PartialEq, Eq, Structural)]
pub enum BenchmarkType {
    PageSize,
    CacheSize,
    TlbSize,
    SinglePerformance,
    CacheAssociativity,
    /// Measures nothing; exercises the session plumbing.
    Dummy,
}

pub open spec fn benchmark_name(t: BenchmarkType) -> Seq<char> {
    match t {
        BenchmarkType::PageSize => "Page size"@,
        BenchmarkType::CacheSize => "Cache size"@,
        BenchmarkType::TlbSize => "TLB size"@,
        BenchmarkType::SinglePerformance => "Single-core performance"@,
        BenchmarkType::CacheAssociativity => "Cache associativity"@,
        BenchmarkType::Dummy => "Dummy"@,
    }
}

impl BenchmarkType {
    /// Whether the probe reads the clock, so that a driver must be running.
    pub fn needs_clock(&self) -> (b: bool)
        ensures
            b == (*self != BenchmarkType::Dummy),
    {
        match self {
            BenchmarkType::Dummy => false,
            _ => true,
        }
    }

    /// The probe's display name.
    pub fn name(&self) -> (s: &'static str)
        ensures
            s@ == benchmark_name(*self),
    {
        match self {
            BenchmarkType::PageSize => "Page size",
            BenchmarkType::CacheSize => "Cache size",
            BenchmarkType::TlbSize => "TLB size",
            BenchmarkType::SinglePerformance => "Single-core performance",
            BenchmarkType::CacheAssociativity => "Cache associativity",
            BenchmarkType::Dummy => "Dummy",
        }
    }
}

/// A request to run one probe. The page origin locates the driver's code
/// for hosts that load it in a fresh execution context; the measurement
/// itself does not read it.
#[derive(Clone, Debug)]
pub struct BenchmarkInput {
    pub benchmark: BenchmarkType,
    pub page_origin: String,
}

/// The result of one probe: its data points, in sweep order, and the ticks
/// that elapsed while it ran.
#[derive(Clone, Debug)]
pub struct BenchmarkResult {
    pub benchmark: BenchmarkType,
    pub data_points: Vec<DataPoint>,
    pub elapsed_ticks: u64,
}

/// A probe together with its sweep configuration.
pub enum Probe {
    PageSize(PageSizeProfiler),
    CacheSize(CacheSizeProfiler),
    TlbSize(TlbSizeProfiler),
    SinglePerformance(SingleCorePerformanceProfiler),
    CacheAssociativity(CacheAssociativityProfiler),
    Dummy,
}

/// `xs` is the default sweep schedule of probes of kind `t`.
pub open spec fn is_default_schedule(t: BenchmarkType, xs: Seq<u64>) -> bool {
    match t {
        BenchmarkType::PageSize => is_offset_sweep(
            xs,
            DEFAULT_START,
            DEFAULT_STEP,
            DEFAULT_BUFFER_BYTES,
        ),
        BenchmarkType::CacheSize => xs == default_cache_sizes(),
        BenchmarkType::TlbSize => xs == default_tlb_entries(),
        BenchmarkType::SinglePerformance => {
            &&& xs.len() == DEFAULT_ROUNDS * DEFAULT_ITERATIONS
            &&& forall|k: int| 0 <= k < xs.len() ==> #[trigger] xs[k] == k
        },
        BenchmarkType::CacheAssociativity => xs == default_ways(),
        BenchmarkType::Dummy => xs.len() == 0,
    }
}

/// The readings of a run of a probe of kind `t` (for single-core samples,
/// with the default window and spin limit).
pub open spec fn kind_reads_match(t: BenchmarkType, res: BenchmarkResult, reads: Seq<u64>) -> bool {
    match t {
        BenchmarkType::PageSize | BenchmarkType::CacheSize | BenchmarkType::TlbSize => {
            &&& timed_run(reads, res.data_points@, res.elapsed_ticks)
            &&& sum_y(res.data_points@) <= res.elapsed_ticks
        },
        BenchmarkType::CacheAssociativity => {
            &&& per_way_run(reads, res.data_points@, res.elapsed_ticks)
            &&& sum_y(res.data_points@) <= res.elapsed_ticks
        },
        BenchmarkType::SinglePerformance => sampled_run(
            reads,
            res.data_points@,
            res.elapsed_ticks,
            DEFAULT_WINDOW,
            DEFAULT_SPIN_LIMIT,
        ),
        BenchmarkType::Dummy => {
            &&& reads.len() == 0
            &&& res.data_points@.len() == 0
            &&& res.elapsed_ticks == 0
        },
    }
}

proof fn lemma_default_cache_sizes_valid()
    ensures
        sweep_within(default_cache_sizes(), ELEMENT_BYTES, MAX_WORKING_SET_BYTES),
{
    let s = default_cache_sizes();
    assert forall|i: int| 0 <= i < s.len() implies ELEMENT_BYTES <= #[trigger] s[i]
        <= MAX_WORKING_SET_BYTES by {
        assert(1 <= default_size_kib(i) <= 32768);
    }
    assert forall|i: int, j: int| 0 <= i < j < s.len() implies #[trigger] s[i] < #[trigger] s[j] by {
        assert(default_size_kib(i) < default_size_kib(j));
        assert(1 <= default_size_kib(i) <= 32768);
        assert(1 <= default_size_kib(j) <= 32768);
    }
}

proof fn lemma_default_schedules_valid()
    ensures
        sweep_within(default_cache_sizes(), ELEMENT_BYTES, MAX_WORKING_SET_BYTES),
        sweep_within(default_tlb_entries(), 1, MAX_TLB_ENTRIES),
        sweep_within(default_ways(), 1, MAX_WAYS),
{
    lemma_default_cache_sizes_valid();
}

impl Probe {
    pub open spec fn kind(&self) -> BenchmarkType {
        match self {
            Probe::PageSize(_) => BenchmarkType::PageSize,
            Probe::CacheSize(_) => BenchmarkType::CacheSize,
            Probe::TlbSize(_) => BenchmarkType::TlbSize,
            Probe::SinglePerformance(_) => BenchmarkType::SinglePerformance,
            Probe::CacheAssociativity(_) => BenchmarkType::CacheAssociativity,
            Probe::Dummy => BenchmarkType::Dummy,
        }
    }

    /// The probe's configuration lies in its declared domain.
    pub open spec fn valid(&self) -> bool {
        match self {
            Probe::PageSize(p) => p.valid(),
            Probe::CacheSize(p) => p.valid(),
            Probe::TlbSize(p) => p.valid(),
            Probe::SinglePerformance(p) => p.valid(),
            Probe::CacheAssociativity(p) => p.valid(),
            Probe::Dummy => true,
        }
    }

    /// `xs` is exactly this probe's sweep schedule, in order.
    pub open spec fn is_schedule(&self, xs: Seq<u64>) -> bool {
        match self {
            Probe::PageSize(p) => is_offset_sweep(xs, p.start, p.step, p.limit),
            Probe::CacheSize(p) => xs == p.sizes@,
            Probe::TlbSize(p) => xs == p.entries@,
            Probe::SinglePerformance(p) => {
                &&& xs.len() == p.rounds * p.iterations
                &&& forall|k: int| 0 <= k < xs.len() ==> #[trigger] xs[k] == k
            },
            Probe::CacheAssociativity(p) => xs == p.ways@,
            Probe::Dummy => xs.len() == 0,
        }
    }

    /// What a successful run of this probe produced: a result of its kind
    /// whose x values are its schedule.
    pub open spec fn result_matches(&self, res: BenchmarkResult) -> bool {
        &&& res.benchmark == self.kind()
        &&& self.is_schedule(xs_of(res.data_points@))
    }

    /// `reads` are the clock readings a successful run producing `res` took:
    /// two around each timed pass (or each sample's turns), and the elapsed
    /// ticks are the last reading minus the first. The dummy probe reads
    /// nothing.
    pub open spec fn reads_match(&self, res: BenchmarkResult, reads: Seq<u64>) -> bool {
        match self {
            Probe::SinglePerformance(p) => sampled_run(
                reads,
                res.data_points@,
                res.elapsed_ticks,
                p.window,
                p.spin_limit,
            ),
            _ => kind_reads_match(self.kind(), res, reads),
        }
    }

    pub fn benchmark_type(&self) -> (t: BenchmarkType)
        ensures
            t == self.kind(),
    {
        match self {
            Probe::PageSize(_) => BenchmarkType::PageSize,
            Probe::CacheSize(_) => BenchmarkType::CacheSize,
            Probe::TlbSize(_) => BenchmarkType::TlbSize,
            Probe::SinglePerformance(_) => BenchmarkType::SinglePerformance,
            Probe::CacheAssociativity(_) => BenchmarkType::CacheAssociativity,
            Probe::Dummy => BenchmarkType::Dummy,
        }
    }

    /// The probe of kind `t` with its default configuration.
    pub fn default_for(t: BenchmarkType) -> (p: Probe)
        ensures
            p.kind() == t,
            p.valid(),
            forall|xs: Seq<u64>| #[trigger] p.is_schedule(xs) == is_default_schedule(t, xs),
            forall|res: BenchmarkResult, reads: Seq<u64>| #[trigger] p.reads_match(res, reads)
                == kind_reads_match(t, res, reads),
    {
        proof {
            lemma_default_schedules_valid();
        }
        match t {
            BenchmarkType::PageSize => Probe::PageSize(PageSizeProfiler::new()),
            BenchmarkType::CacheSize => Probe::CacheSize(CacheSizeProfiler::new()),
            BenchmarkType::TlbSize => Probe::TlbSize(TlbSizeProfiler::new()),
            BenchmarkType::SinglePerformance => Probe::SinglePerformance(
                SingleCorePerformanceProfiler::new(),
            ),
            BenchmarkType::CacheAssociativity => Probe::CacheAssociativity(
                CacheAssociativityProfiler::new(),
            ),
            BenchmarkType::Dummy => Probe::Dummy,
        }
    }

    /// Runs the probe. Fails exactly when its configuration is invalid, and
    /// then without reading the clock.
    pub fn run<C: TickSource, G: RoundGap>(&self, clock: &mut C, gap: &mut G) -> (r: Result<
        BenchmarkResult,
        ProbeFault,
    >)
        ensures
            r is Err <==> !self.valid(),
            r is Err ==> r == Err::<BenchmarkResult, ProbeFault>(ProbeFault::SweepDomain),
            r is Err ==> *final(clock) == *old(clock),
            r matches Ok(res) ==> {
                &&& self.result_matches(res)
                &&& final(clock).last_tick() >= old(clock).last_tick() + res.elapsed_ticks
                &&& self.reads_match(
                    res,
                    reads_since(final(clock).history(), old(clock).history().len()),
                )
            },
            extends(old(clock).history(), final(clock).history()),
    {
        proof {
            assert(old(clock).history().take(old(clock).history().len() as int) =~= old(
                clock,
            ).history());
            assert(reads_since(old(clock).history(), old(clock).history().len()) =~= Seq::<
                u64,
            >::empty());
        }
        match self {
            Probe::PageSize(p) => p.run(clock),
            Probe::CacheSize(p) => p.run(clock),
            Probe::TlbSize(p) => p.run(clock),
            Probe::SinglePerformance(p) => p.run(clock, gap),
            Probe::CacheAssociativity(p) => p.run(clock),
            Probe::Dummy => Ok(run_dummy_benchmark()),
        }
    }
}

/// Every probe in its domain sweeps its parameter in strictly increasing
/// order: the x values of any schedule it accepts never repeat or go back.
pub proof fn lemma_schedule_increasing(p: Probe, xs: Seq<u64>)
    requires
        p.valid(),
        p.is_schedule(xs),
    ensures
        strictly_increasing(xs),
{
    match p {
        Probe::PageSize(q) => {
            assert forall|i: int, j: int| 0 <= i < j < xs.len() implies #[trigger] xs[i]
                < #[trigger] xs[j] by {
                assert(i * q.step < j * q.step) by (nonlinear_arith)
                    requires
                        i < j,
                        q.step >= 1,
                ;
            }
        },
        Probe::SinglePerformance(_) => {
            assert forall|i: int, j: int| 0 <= i < j < xs.len() implies #[trigger] xs[i]
                < #[trigger] xs[j] by {
                assert(xs[i] == i);
                assert(xs[j] == j);
            }
        },
        _ => {},
    }
}

/// Runs the probe of kind `benchmark` with its default configuration, which
/// always lies in the probe's domain.
pub fn run_benchmark<C: TickSource, G: RoundGap>(
    benchmark: BenchmarkType,
    clock: &mut C,
    gap: &mut G,
) -> (res: BenchmarkResult)
    ensures
        res.benchmark == benchmark,
        is_default_schedule(benchmark, xs_of(res.data_points@)),
        final(clock).last_tick() >= old(clock).last_tick() + res.elapsed_ticks,
        extends(old(clock).history(), final(clock).history()),
        kind_reads_match(
            benchmark,
            res,
            reads_since(final(clock).history(), old(clock).history().len()),
        ),
{
    let probe = Probe::default_for(benchmark);
    probe.run(clock, gap).unwrap()
}

/// Runs the page-size probe with its default sweep.
pub fn run_page_size_benchmark<C: TickSource>(clock: &mut C) -> (res: BenchmarkResult)
    ensures
        res.benchmark == BenchmarkType::PageSize,
        is_default_schedule(BenchmarkType::PageSize, xs_of(res.data_points@)),
        extends(old(clock).history(), final(clock).history()),
        kind_reads_match(
            BenchmarkType::PageSize,
            res,
            reads_since(final(clock).history(), old(clock).history().len()),
        ),
{
    run_benchmark(BenchmarkType::PageSize, clock, &mut NoGap)
}

/// Runs the cache-size probe with its default schedule.
pub fn run_cache_size_benchmark<C: TickSource>(clock: &mut C) -> (res: BenchmarkResult)
    ensures
        res.benchmark == BenchmarkType::CacheSize,
        xs_of(res.data_points@) == default_cache_sizes(),
        extends(old(clock).history(), final(clock).history()),
        kind_reads_match(
            BenchmarkType::CacheSize,
            res,
            reads_since(final(clock).history(), old(clock).history().len()),
        ),
{
    run_benchmark(BenchmarkType::CacheSize, clock, &mut NoGap)
}

/// Runs the TLB-size probe with its default schedule.
pub fn run_tlb_size_benchmark<C: TickSource>(clock: &mut C) -> (res: BenchmarkResult)
    ensures
        res.benchmark == BenchmarkType::TlbSize,
        xs_of(res.data_points@) == default_tlb_entries(),
        extends(old(clock).history(), final(clock).history()),
        kind_reads_match(
            BenchmarkType::TlbSize,
            res,
            reads_since(final(clock).history(), old(clock).history().len()),
        ),
{
    run_benchmark(BenchmarkType::TlbSize, clock, &mut NoGap)
}

/// Runs the single-core throughput probe with its default configuration.
pub fn run_single_performance_benchmark<C: TickSource, G: RoundGap>(
    clock: &mut C,
    gap: &mut G,
) -> (res: BenchmarkResult)
    ensures
        res.benchmark == BenchmarkType::SinglePerformance,
        is_default_schedule(BenchmarkType::SinglePerformance, xs_of(res.data_points@)),
        extends(old(clock).history(), final(clock).history()),
        kind_reads_match(
            BenchmarkType::SinglePerformance,
            res,
            reads_since(final(clock).history(), old(clock).history().len()),
        ),
{
    run_benchmark(BenchmarkType::SinglePerformance, clock, gap)
}

/// Runs the associativity probe with its default schedule.
pub fn run_cache_associativity_benchmark<C: TickSource>(clock: &mut C) -> (res: BenchmarkResult)
    ensures
        res.benchmark == BenchmarkType::CacheAssociativity,
        xs_of(res.data_points@) == default_ways(),
        extends(old(clock).history(), final(clock).history()),
        kind_reads_match(
            BenchmarkType::CacheAssociativity,
            res,
            reads_since(final(clock).history(), old(clock).history().len()),
        ),
{
    run_benchmark(BenchmarkType::CacheAssociativity, clock, &mut NoGap)
}

/// The probe that measures nothing: an empty result, without reading a clock.
pub fn run_dummy_benchmark() -> (res: BenchmarkResult)
    ensures
        res.benchmark == BenchmarkType::Dummy,
        res.data_points@.len() == 0,
        res.elapsed_ticks == 0,
{
    BenchmarkResult { benchmark: BenchmarkType::Dummy, data_points: Vec::new(), elapsed_ticks: 0 }
}

} // verus!
