//! The surrogate clock.
//!
//! A driver task increments a shared 64-bit counter in a tight loop; probes
//! read it to measure short intervals at a resolution far finer than the
//! platform timer. All accesses are relaxed atomic operations on one cell.
//!
//! Wraparound policy: the counter itself wraps like `fetch_add` does, but a
//! reader never reports a value below one it has already reported. Should
//! the counter ever wrap (after 2^64 increments), readers see a frozen clock
//! rather than a clock that runs backwards.

use std::sync::atomic::{AtomicU64, Ordering};
use std::sync::Arc;
use vstd::prelude::*;

verus! {

/// A source of monotonically non-decreasing ticks, read by one reader.
pub trait TickSource {
    /// The most recent tick this reader has reported (0 before the first read).
    spec fn last_tick(&self) -> u64;

    /// Every tick this reader has reported, in order.
    spec fn history(&self) -> Seq<u64>;

    /// The next reading, where it is determined by the reader's state alone
    /// (a synthetic clock); `None` where it depends on a running driver.
    spec fn next_reading(&self) -> Option<u64>;

    /// Reads the current tick.
    fn read(&mut self) -> (t: u64)
        ensures
            t >= old(self).last_tick(),
            final(self).last_tick() == t,
            final(self).history() == old(self).history().push(t),
            old(self).next_reading() matches Some(n) ==> t == n,
    ;
}

/// A handle on the shared counter cell. The driver increments through one
/// handle; each probe reads through its own.
pub struct Clock {
    counter: Arc<AtomicU64>,
    last: u64,
    reads: Ghost<Seq<u64>>,
}

impl Clock {
    /// Creates a fresh counter cell, set to zero, and a first handle on it.
    pub fn new() -> (c: Clock)
        ensures
            c.last_tick() == 0,
            c.history() == Seq::<u64>::empty(),
    {
        Clock { counter: Arc::new(AtomicU64::new(0)), last: 0, reads: Ghost(Seq::empty()) }
    }

    /// Another handle on the same counter cell, with its own reading history.
    pub fn handle(&self) -> (c: Clock)
        ensures
            c.last_tick() == 0,
            c.history() == Seq::<u64>::empty(),
    {
        Clock { counter: self.counter.clone(), last: 0, reads: Ghost(Seq::empty()) }
    }

    /// Advances the counter by one and returns the value it now holds
    /// (wrapping at 2^64). This is the driver's only operation.
    pub fn increment(&self) -> u64 {
        let before = self.counter.fetch_add(1, Ordering::Relaxed);
        before.wrapping_add(1)
    }
}

impl TickSource for Clock {
    closed spec fn last_tick(&self) -> u64 {
        self.last
    }

    closed spec fn history(&self) -> Seq<u64> {
        self.reads@
    }

    closed spec fn next_reading(&self) -> Option<u64> {
        None
    }

    /// A fetch-add of zero gives a consistent snapshot of the cell.
    fn read(&mut self) -> (t: u64) {
        let raw = self.counter.fetch_add(0, Ordering::Relaxed);
        if raw > self.last {
            self.last = raw;
        }
        self.reads = Ghost(self.reads@.push(self.last));
        self.last
    }
}

/// A deterministic stand-in for a running driver: each read advances the
/// clock by a fixed step, so the n-th read returns `n * step` (saturating
/// at `u64::MAX`).
pub struct SyntheticClock {
    step: u64,
    last: u64,
    reads: Ghost<Seq<u64>>,
}

impl SyntheticClock {
    pub closed spec fn step_spec(&self) -> u64 {
        self.step
    }

    pub fn new(step: u64) -> (c: SyntheticClock)
        ensures
            c.step_spec() == step,
            c.last_tick() == 0,
            c.history() == Seq::<u64>::empty(),
    {
        SyntheticClock { step, last: 0, reads: Ghost(Seq::empty()) }
    }

    /// The next reading is the last one plus the step, saturating.
    pub proof fn lemma_next_reading(&self)
        ensures
            self.next_reading() == Some(
                if self.last_tick() + self.step_spec() > u64::MAX {
                    u64::MAX
                } else {
                    (self.last_tick() + self.step_spec()) as u64
                },
            ),
    {
    }

    /// The amount each read advances the clock by.
    pub fn step(&self) -> (s: u64)
        ensures
            s == self.step_spec(),
    {
        self.step
    }
}

impl TickSource for SyntheticClock {
    closed spec fn last_tick(&self) -> u64 {
        self.last
    }

    closed spec fn history(&self) -> Seq<u64> {
        self.reads@
    }

    /// The last reading plus the step, saturating at `u64::MAX`.
    closed spec fn next_reading(&self) -> Option<u64> {
        Some(
            if self.last + self.step > u64::MAX {
                u64::MAX
            } else {
                (self.last + self.step) as u64
            },
        )
    }

    fn read(&mut self) -> (t: u64) {
        self.last = self.last.saturating_add(self.step);
        self.reads = Ghost(self.reads@.push(self.last));
        self.last
    }
}

} // verus!
