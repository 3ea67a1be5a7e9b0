//! TLB reach: the cache-size sweep at page granularity. Each swept value is
//! a number of pages, touched one element per page, so the latency steps
//! mark the number of translations the TLB holds.

use crate::benchmark::{BenchmarkResult, BenchmarkType};
use crate::clock::TickSource;
use crate::sweep::{
    extends, lemma_timed_run, reads_since, timed_run,
    chase_sweep, validate_sweep, strictly_increasing, sum_y, sweep_within, xs_of, ProbeFault,
    MAX_ELEMENTS,
};
use vstd::prelude::*;

verus! {

/// Page size assumed by the sweep, in elements (4 KiB of 8-byte elements).
pub const PAGE_ELEMENTS: u64 = 512;

/// Most pages a sweep may span (the working-set limit in pages).
pub const MAX_TLB_ENTRIES: u64 = 262_144;

/// Number of entry counts in the default schedule.
pub const DEFAULT_ENTRY_COUNT: usize = 31;

/// The default schedule: 2, 6, 10, ..., 122 pages.
pub open spec fn default_tlb_entries() -> Seq<u64> {
    Seq::new(DEFAULT_ENTRY_COUNT as nat, |i: int| (2 + 4 * i) as u64)
}

/// Sweeps the number of pages E. For each E it builds a random cycle through
/// the first element of E pages, warms it, and records the ticks of a timed
/// chase of 512 laps: `DataPoint { x: E, y: ticks }`.
pub struct TlbSizeProfiler {
    /// Page counts, in sweep order.
    pub entries: Vec<u64>,
}

impl TlbSizeProfiler {
    /// The page counts this probe accepts: strictly increasing, each between
    /// 1 and `MAX_TLB_ENTRIES`.
    pub open spec fn valid(&self) -> bool {
        sweep_within(self.entries@, 1, MAX_TLB_ENTRIES)
    }

    /// The probe with its default schedule.
    pub fn new() -> (p: TlbSizeProfiler)
        ensures
            p.entries@ == default_tlb_entries(),
    {
        let mut entries: Vec<u64> = Vec::new();
        let mut i: usize = 0;
        while i < DEFAULT_ENTRY_COUNT
            invariant
                i <= DEFAULT_ENTRY_COUNT,
                entries@ == default_tlb_entries().take(i as int),
            decreases DEFAULT_ENTRY_COUNT - i,
        {
            entries.push(2 + 4 * i as u64);
            assert(entries@ =~= default_tlb_entries().take(i + 1));
            i = i + 1;
        }
        assert(entries@ =~= default_tlb_entries());
        TlbSizeProfiler { entries }
    }

    /// The probe with the given schedule (page counts, in sweep order).
    pub fn with_entries(entries: Vec<u64>) -> (p: TlbSizeProfiler)
        ensures
            p.entries@ == entries@,
    {
        TlbSizeProfiler { entries }
    }

    pub fn get_name(&self) -> (name: &'static str)
        ensures
            name@ == "TLB size"@,
    {
        "TLB size"
    }

    /// Runs the sweep. Fails, without reading the clock, exactly when the
    /// schedule is invalid.
    pub fn run<C: TickSource>(&self, clock: &mut C) -> (r: Result<BenchmarkResult, ProbeFault>)
        ensures
            r is Err <==> !self.valid(),
            r is Err ==> r == Err::<BenchmarkResult, ProbeFault>(ProbeFault::SweepDomain),
            r is Err ==> *final(clock) == *old(clock),
            r matches Ok(res) ==> {
                &&& res.benchmark == BenchmarkType::TlbSize
                &&& xs_of(res.data_points@) == self.entries@
                &&& strictly_increasing(xs_of(res.data_points@))
                &&& sum_y(res.data_points@) <= res.elapsed_ticks
                &&& final(clock).last_tick() >= old(clock).last_tick() + res.elapsed_ticks
                &&& timed_run(
                    reads_since(final(clock).history(), old(clock).history().len()),
                    res.data_points@,
                    res.elapsed_ticks,
                )
            },
            extends(old(clock).history(), final(clock).history()),
    {
        proof {
            assert(old(clock).history().take(old(clock).history().len() as int) =~= old(
                clock,
            ).history());
        }
        if !validate_sweep(&self.entries, 1, MAX_TLB_ENTRIES) {
            return Err(ProbeFault::SweepDomain);
        }
        proof {
            assert forall|i: int| 0 <= i < self.entries@.len() implies {
                &&& 1 <= #[trigger] self.entries@[i]
                &&& (self.entries@[i] / 1) * PAGE_ELEMENTS <= MAX_ELEMENTS
                &&& (self.entries@[i] / 1) * PAGE_ELEMENTS <= u64::MAX
            } by {
                let x = self.entries@[i];
                assert(x / 1 == x);
            }
        }
        let ghost h0 = clock.history();
        let first = clock.read();
        let ghost h1 = clock.history();
        let points = chase_sweep(clock, &self.entries, 1, PAGE_ELEMENTS, PAGE_ELEMENTS);
        let ghost h2 = clock.history();
        let last = clock.read();
        proof {
            lemma_timed_run(h0, h1, h2, clock.history(), first, last, points@);
        }
        Ok(BenchmarkResult {
            benchmark: BenchmarkType::TlbSize,
            data_points: points,
            elapsed_ticks: last - first,
        })
    }
}

} // verus!
