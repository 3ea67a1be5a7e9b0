//! Sessions: the clock's lifecycle, strictly sequential probe runs, and the
//! envelope handed to the upload path.

use crate::benchmark::{benchmark_name, BenchmarkResult, BenchmarkType, Probe};
use crate::clock::{Clock, TickSource};
use crate::single_core::RoundGap;
use crate::page_size::is_offset_sweep;
use crate::sweep::{xs_of, ProbeFault};
use vstd::prelude::*;

verus! {

/// How long to wait for the driver's readiness message before the session
/// fails with `SetupFault::HandshakeTimeout`, in milliseconds.
pub const HANDSHAKE_TIMEOUT_MILLIS: u64 = 5000;

/// Why a session could not get a running clock.
#[derive(Clone, Copy, Debug, PartialEq, Eq, Structural)]
pub enum SetupFault {
    /// The host offers no shared memory or no 64-bit atomic operations.
    SharedMemoryUnsupported,
    /// The driver did not signal readiness in time.
    HandshakeTimeout,
}

/// Why a session produced no envelope.
#[derive(Clone, Copy, Debug, PartialEq, Eq, Structural)]
pub enum SessionFault {
    Setup(SetupFault),
    /// The probe at this position of the session faulted.
    Probe(usize, ProbeFault),
}

/// What a session hands to the upload path: the user-supplied CPU model,
/// the host identifier, and one result per probe, in the order the probes
/// ran.
#[derive(Clone, Debug)]
pub struct ResultDTO {
    pub model: String,
    pub user_agent: String,
    pub benchmark_results: Vec<BenchmarkResult>,
}

/// The probes a session runs when none are selected, in order.
pub open spec fn default_benchmark_list() -> Seq<BenchmarkType> {
    seq![
        BenchmarkType::PageSize,
        BenchmarkType::CacheSize,
        BenchmarkType::TlbSize,
        BenchmarkType::SinglePerformance,
        BenchmarkType::CacheAssociativity,
    ]
}

pub fn default_benchmarks() -> (v: Vec<BenchmarkType>)
    ensures
        v@ == default_benchmark_list(),
{
    let v = vec![
        BenchmarkType::PageSize,
        BenchmarkType::CacheSize,
        BenchmarkType::TlbSize,
        BenchmarkType::SinglePerformance,
        BenchmarkType::CacheAssociativity,
    ];
    assert(v@ =~= default_benchmark_list());
    v
}

impl ResultDTO {
    /// Each result's probe name, in run order: the keys of the envelope's
    /// mappings.
    pub fn names(&self) -> (v: Vec<&'static str>)
        ensures
            v@.len() == self.benchmark_results@.len(),
            forall|i: int|
                0 <= i < v@.len() ==> #[trigger] v@[i]@ == benchmark_name(
                    self.benchmark_results@[i].benchmark,
                ),
    {
        let mut v: Vec<&'static str> = Vec::new();
        let mut i: usize = 0;
        while i < self.benchmark_results.len()
            invariant
                i <= self.benchmark_results.len(),
                v@.len() == i,
                forall|j: int|
                    0 <= j < i ==> #[trigger] v@[j]@ == benchmark_name(
                        self.benchmark_results@[j].benchmark,
                    ),
            decreases self.benchmark_results.len() - i,
        {
            v.push(self.benchmark_results[i].benchmark.name());
            i = i + 1;
        }
        v
    }

    /// Each result's elapsed ticks, in run order: the envelope's times.
    pub fn times(&self) -> (v: Vec<u64>)
        ensures
            v@.len() == self.benchmark_results@.len(),
            forall|i: int|
                0 <= i < v@.len() ==> #[trigger] v@[i] == self.benchmark_results@[i].elapsed_ticks,
    {
        let mut v: Vec<u64> = Vec::new();
        let mut i: usize = 0;
        while i < self.benchmark_results.len()
            invariant
                i <= self.benchmark_results.len(),
                v@.len() == i,
                forall|j: int|
                    0 <= j < i ==> #[trigger] v@[j] == self.benchmark_results@[j].elapsed_ticks,
            decreases self.benchmark_results.len() - i,
        {
            v.push(self.benchmark_results[i].elapsed_ticks);
            i = i + 1;
        }
        v
    }
}

/// Creates the shared counter, if the host supports the shared memory and
/// atomic operations it needs.
pub fn open_clock(shared_memory_supported: bool) -> (r: Result<Clock, SetupFault>)
    ensures
        r is Err <==> !shared_memory_supported,
        r is Err ==> r == Err::<Clock, SetupFault>(SetupFault::SharedMemoryUnsupported),
        r matches Ok(c) ==> c.last_tick() == 0,
{
    if shared_memory_supported {
        Ok(Clock::new())
    } else {
        Err(SetupFault::SharedMemoryUnsupported)
    }
}

/// Every probe in `probes` is in its domain.
pub open spec fn all_valid(probes: Seq<Probe>) -> bool {
    forall|i: int| 0 <= i < probes.len() ==> #[trigger] probes[i].valid()
}

/// `i` is the position of the first probe outside its domain.
pub open spec fn first_invalid(probes: Seq<Probe>, i: int) -> bool {
    &&& 0 <= i < probes.len()
    &&& !probes[i].valid()
    &&& forall|j: int| 0 <= j < i ==> #[trigger] probes[j].valid()
}

/// Runs `probes` in order on the clock (waiting through `gap` between the
/// rounds of a throughput probe), each one starting only after the
/// previous one produced its result. With no clock, no probe runs. The first
/// probe that faults ends the session, and no envelope is produced.
pub fn run_session<C: TickSource, G: RoundGap>(
    clock: Result<C, SetupFault>,
    gap: &mut G,
    probes: &Vec<Probe>,
    model: String,
    user_agent: String,
) -> (r: Result<ResultDTO, SessionFault>)
    ensures
        clock matches Err(e) ==> r == Err::<ResultDTO, SessionFault>(SessionFault::Setup(e)),
        clock is Ok ==> (r is Ok <==> all_valid(probes@)),
        r matches Err(SessionFault::Probe(i, f)) ==> {
            &&& clock is Ok
            &&& first_invalid(probes@, i as int)
            &&& f == ProbeFault::SweepDomain
        },
        r matches Ok(env) ==> {
            &&& env.model@ == model@
            &&& env.user_agent@ == user_agent@
            &&& env.benchmark_results@.len() == probes@.len()
            &&& forall|i: int|
                0 <= i < probes@.len() ==> #[trigger] probes@[i].result_matches(
                    env.benchmark_results@[i],
                )
        },
{
    let mut ticks = match clock {
        Ok(c) => c,
        Err(e) => {
            return Err(SessionFault::Setup(e));
        },
    };
    let mut results: Vec<BenchmarkResult> = Vec::new();
    let mut i: usize = 0;
    while i < probes.len()
        invariant
            i <= probes.len(),
            clock is Ok,
            results@.len() == i,
            forall|j: int| 0 <= j < i ==> #[trigger] probes@[j].valid(),
            forall|j: int| 0 <= j < i ==> #[trigger] probes@[j].result_matches(results@[j]),
        decreases probes.len() - i,
    {
        match probes[i].run(&mut ticks, gap) {
            Ok(res) => {
                results.push(res);
            },
            Err(f) => {
                return Err(SessionFault::Probe(i, f));
            },
        }
        i = i + 1;
    }
    Ok(ResultDTO { model, user_agent, benchmark_results: results })
}

/// Running the same probe twice yields data-point sequences of the same
/// length and with the same x values; only the measured y values may differ.
pub proof fn lemma_rerun_same_sweep(p: Probe, first: BenchmarkResult, second: BenchmarkResult)
    requires
        p.valid(),
        p.result_matches(first),
        p.result_matches(second),
    ensures
        first.data_points@.len() == second.data_points@.len(),
        xs_of(first.data_points@) == xs_of(second.data_points@),
{
    let a = xs_of(first.data_points@);
    let b = xs_of(second.data_points@);
    match p {
        Probe::PageSize(q) => {
            lemma_offset_sweep_unique(a, b, q.start, q.step, q.limit);
        },
        Probe::SinglePerformance(_) => {
            assert(a =~= b);
        },
        Probe::Dummy => {
            assert(a =~= b);
        },
        _ => {},
    }
}

/// Two offset sweeps over the same range are the same sequence.
proof fn lemma_offset_sweep_unique(a: Seq<u64>, b: Seq<u64>, start: u64, step: u64, limit: u64)
    requires
        step >= 1,
        is_offset_sweep(a, start, step, limit),
        is_offset_sweep(b, start, step, limit),
    ensures
        a == b,
{
    if a.len() < b.len() {
        let m = a.len() as int;
        let n = b.len() as int;
        assert(m * step <= (n - 1) * step) by (nonlinear_arith)
            requires
                m <= n - 1,
                step >= 1,
        ;
    } else if b.len() < a.len() {
        let m = b.len() as int;
        let n = a.len() as int;
        assert(m * step <= (n - 1) * step) by (nonlinear_arith)
            requires
                m <= n - 1,
                step >= 1,
        ;
    }
    assert(a =~= b);
}

} // verus!
