//! Page size: single accesses at increasing byte offsets into one buffer.
//! Address translation, not cache residency, is under test, so there is no
//! pointer chase: each offset is read once, and the latency jumps where the
//! offsets cross page boundaries.

use crate::benchmark::{BenchmarkResult, BenchmarkType};
use crate::chase::opaque;
use crate::clock::TickSource;
use crate::sweep::{
    extends, lemma_extends_trans, lemma_timed_run, reads_since, timed_run,
    strictly_increasing, sum_y, xs_of, DataPoint, ProbeFault, MAX_WORKING_SET_BYTES,
};
use vstd::prelude::*;

verus! {

/// First offset of the default sweep, in bytes.
pub const DEFAULT_START: u64 = 2048;

/// Distance between two offsets of the default sweep, in bytes.
pub const DEFAULT_STEP: u64 = 16;

/// Size of the default buffer, in bytes (a little over 4 MiB).
pub const DEFAULT_BUFFER_BYTES: u64 = 4_194_704;

/// `xs` are the offsets `start, start + step, ...` that lie below `limit`,
/// all of them and in that order.
pub open spec fn is_offset_sweep(xs: Seq<u64>, start: u64, step: u64, limit: u64) -> bool {
    &&& forall|k: int| 0 <= k < xs.len() ==> #[trigger] xs[k] == start + k * step
    &&& start + xs.len() * step >= limit
    &&& xs.len() == 0 || start + (xs.len() - 1) * step < limit
}

/// Times one read at each offset `start + k * step` below `limit`, and
/// records `DataPoint { x: offset, y: ticks }`.
pub struct PageSizeProfiler {
    /// First offset, in bytes.
    pub start: u64,
    /// Distance between offsets, in bytes.
    pub step: u64,
    /// Buffer size, in bytes; every offset lies below it.
    pub limit: u64,
}

/// Times a single read of the byte at `offset`.
pub fn iteration<C: TickSource>(clock: &mut C, buffer: &Vec<u8>, offset: usize) -> (ticks: u64)
    requires
        offset < buffer.len(),
    ensures
        final(clock).last_tick() >= old(clock).last_tick() + ticks,
        extends(old(clock).history(), final(clock).history()),
        final(clock).history().len() == old(clock).history().len() + 2,
        ticks == reads_since(final(clock).history(), old(clock).history().len())[1]
            - reads_since(final(clock).history(), old(clock).history().len())[0],
{
    let ghost h0 = clock.history();
    let start = clock.read();
    let _value = opaque(buffer[offset]);
    let end = clock.read();
    assert(clock.history().take(h0.len() as int) =~= h0);
    end - start
}

impl PageSizeProfiler {
    /// The configurations this probe accepts: a step of at least one byte,
    /// and step and buffer within the working-set limit.
    pub open spec fn valid(&self) -> bool {
        &&& 1 <= self.step <= MAX_WORKING_SET_BYTES
        &&& self.limit <= MAX_WORKING_SET_BYTES
    }

    /// The probe with its default sweep.
    pub fn new() -> (p: PageSizeProfiler)
        ensures
            p.start == DEFAULT_START,
            p.step == DEFAULT_STEP,
            p.limit == DEFAULT_BUFFER_BYTES,
    {
        PageSizeProfiler { start: DEFAULT_START, step: DEFAULT_STEP, limit: DEFAULT_BUFFER_BYTES }
    }

    /// The probe with the given sweep.
    pub fn with_sweep(start: u64, step: u64, limit: u64) -> (p: PageSizeProfiler)
        ensures
            p.start == start,
            p.step == step,
            p.limit == limit,
    {
        PageSizeProfiler { start, step, limit }
    }

    pub fn get_name(&self) -> (name: &'static str)
        ensures
            name@ == "Page size"@,
    {
        "Page size"
    }

    /// Runs the sweep. Fails, without reading the clock, exactly when the
    /// configuration is invalid.
    pub fn run<C: TickSource>(&self, clock: &mut C) -> (r: Result<BenchmarkResult, ProbeFault>)
        ensures
            r is Err <==> !self.valid(),
            r is Err ==> r == Err::<BenchmarkResult, ProbeFault>(ProbeFault::SweepDomain),
            r is Err ==> *final(clock) == *old(clock),
            r matches Ok(res) ==> {
                &&& res.benchmark == BenchmarkType::PageSize
                &&& is_offset_sweep(xs_of(res.data_points@), self.start, self.step, self.limit)
                &&& strictly_increasing(xs_of(res.data_points@))
                &&& sum_y(res.data_points@) <= res.elapsed_ticks
                &&& final(clock).last_tick() >= old(clock).last_tick() + res.elapsed_ticks
                &&& timed_run(
                    reads_since(final(clock).history(), old(clock).history().len()),
                    res.data_points@,
                    res.elapsed_ticks,
                )
            },
            extends(old(clock).history(), final(clock).history()),
    {
        proof {
            assert(old(clock).history().take(old(clock).history().len() as int) =~= old(
                clock,
            ).history());
        }
        if self.step < 1 || self.step > MAX_WORKING_SET_BYTES || self.limit > MAX_WORKING_SET_BYTES {
            return Err(ProbeFault::SweepDomain);
        }
        let buffer: Vec<u8> = vec![0u8; self.limit as usize];
        let ghost h0 = clock.history();
        let first = clock.read();
        let ghost h1 = clock.history();
        assert(clock.history().take(h1.len() as int) =~= h1);
        let mut points: Vec<DataPoint> = Vec::new();
        let mut offset: u64 = self.start;
        let ghost mut count: int = 0;
        while offset < self.limit
            invariant
                self.valid(),
                buffer@.len() == self.limit,
                count == points@.len(),
                offset == self.start + count * self.step,
                count == 0 || self.start + (count - 1) * self.step < self.limit,
                forall|k: int|
                    0 <= k < points@.len() ==> #[trigger] xs_of(points@)[k] == self.start + k
                        * self.step,
                first <= clock.last_tick(),
                old(clock).last_tick() <= first,
                sum_y(points@) <= clock.last_tick() - first,
                h1.len() == h0.len() + 1,
                extends(h1, clock.history()),
                clock.history().len() == h1.len() + 2 * count,
                forall|j: int|
                    0 <= j < count ==> #[trigger] points@[j].y == clock.history()[h1.len() + 2 * j
                        + 1] - clock.history()[h1.len() + 2 * j],
            decreases self.limit + self.step - offset,
        {
            let ghost hb = clock.history();
            let ticks = iteration(clock, &buffer, offset as usize);
            let ghost prev = points@;
            points.push(DataPoint { x: offset, y: ticks });
            proof {
                lemma_extends_trans(h1, hb, clock.history());
                assert(reads_since(clock.history(), hb.len())[0] == clock.history()[hb.len() as int]);
                assert(reads_since(clock.history(), hb.len())[1] == clock.history()[hb.len() as int
                    + 1]);
                assert forall|j: int| 0 <= j < count + 1 implies #[trigger] points@[j].y
                    == clock.history()[h1.len() + 2 * j + 1] - clock.history()[h1.len() + 2 * j] by {
                    if j < count {
                        assert(points@[j] == prev[j]);
                    }
                }
                assert(points@.drop_last() == prev);
                assert forall|k: int| 0 <= k < points@.len() implies #[trigger] xs_of(points@)[k]
                    == self.start + k * self.step by {
                    if k < count {
                        assert(xs_of(prev)[k] == self.start + k * self.step);
                        assert(points@[k] == prev[k]);
                    }
                }
                assert(self.start + (count + 1) * self.step == offset + self.step) by (nonlinear_arith)
                    requires
                        offset == self.start + count * self.step,
                ;
                count = count + 1;
            }
            offset = offset + self.step;
        }
        proof {
            let xs = xs_of(points@);
            assert forall|i: int, j: int| 0 <= i < j < xs.len() implies #[trigger] xs[i]
                < #[trigger] xs[j] by {
                assert(xs[i] == self.start + i * self.step);
                assert(xs[j] == self.start + j * self.step);
                assert(i * self.step < j * self.step) by (nonlinear_arith)
                    requires
                        i < j,
                        self.step >= 1,
                ;
            }
        }
        let ghost h2 = clock.history();
        proof {
            let m = reads_since(h2, h1.len());
            assert forall|j: int| 0 <= j < points@.len() implies #[trigger] points@[j].y == m[2 * j
                + 1] - m[2 * j] by {
                assert(m[2 * j + 1] == h2[h1.len() + 2 * j + 1]);
                assert(m[2 * j] == h2[h1.len() + 2 * j]);
            }
        }
        let last = clock.read();
        proof {
            lemma_timed_run(h0, h1, h2, clock.history(), first, last, points@);
        }
        Ok(BenchmarkResult {
            benchmark: BenchmarkType::PageSize,
            data_points: points,
            elapsed_ticks: last - first,
        })
    }
}

} // verus!
