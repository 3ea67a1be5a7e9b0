//! Probes and benchmark-list entries that are named but do not measure
//! anything yet: each reports its name and an empty data-point sequence.

use crate::sweep::DataPoint;
use vstd::prelude::*;

verus! {

/// The load buffer size probe (no measurement yet).
pub struct LoadBufferSizeProfiler;

impl LoadBufferSizeProfiler {
    pub fn get_name(&self) -> (name: &'static str)
        ensures
            name@ == "Load buffer profiler"@,
    {
        "Load buffer profiler"
    }

    pub fn run(&self) -> (points: Vec<DataPoint>)
        ensures
            points@.len() == 0,
    {
        Vec::new()
    }
}

/// The memory latencies probe (no measurement yet).
pub struct MemoryLatenciesProfiler;

impl MemoryLatenciesProfiler {
    pub fn get_name(&self) -> (name: &'static str)
        ensures
            name@ == "Memory latencies"@,
    {
        "Memory latencies"
    }

    pub fn run(&self) -> (points: Vec<DataPoint>)
        ensures
            points@.len() == 0,
    {
        Vec::new()
    }
}

/// The multi-core performance probe (no measurement yet).
pub struct MultiCorePerformanceProfiler;

impl MultiCorePerformanceProfiler {
    pub fn get_name(&self) -> (name: &'static str)
        ensures
            name@ == "Multi-core performance"@,
    {
        "Multi-core performance"
    }

    pub fn run(&self) -> (points: Vec<DataPoint>)
        ensures
            points@.len() == 0,
    {
        Vec::new()
    }
}

/// The prefetcher behaviour probe (no measurement yet).
pub struct PrefetcherProfiler;

impl PrefetcherProfiler {
    pub fn get_name(&self) -> (name: &'static str)
        ensures
            name@ == "Prefetcher"@,
    {
        "Prefetcher"
    }

    pub fn run(&self) -> (points: Vec<DataPoint>)
        ensures
            points@.len() == 0,
    {
        Vec::new()
    }
}

/// The timer precision probe (no measurement yet).
pub struct TimerPrecisionProfiler;

impl TimerPrecisionProfiler {
    pub fn get_name(&self) -> (name: &'static str)
        ensures
            name@ == "Timer precision"@,
    {
        "Timer precision"
    }

    pub fn run(&self) -> (points: Vec<DataPoint>)
        ensures
            points@.len() == 0,
    {
        Vec::new()
    }
}

/// The CPU core count entry of the benchmark list (no measurement yet).
pub struct CpuCoresCountBenchmark;

impl CpuCoresCountBenchmark {
    pub fn get_name(&self) -> (name: &'static str)
        ensures
            name@ == "CPU cores count"@,
    {
        "CPU cores count"
    }

    pub fn run(&self) -> (points: Vec<DataPoint>)
        ensures
            points@.len() == 0,
    {
        Vec::new()
    }
}

/// The data cache size entry of the benchmark list (no measurement yet).
pub struct DataCacheSizeBenchmark;

impl DataCacheSizeBenchmark {
    pub fn get_name(&self) -> (name: &'static str)
        ensures
            name@ == "Data cache size"@,
    {
        "Data cache size"
    }

    pub fn run(&self) -> (points: Vec<DataPoint>)
        ensures
            points@.len() == 0,
    {
        Vec::new()
    }
}

/// The dummy entry of the benchmark list (no measurement yet).
pub struct DummyBenchmark;

impl DummyBenchmark {
    pub fn get_name(&self) -> (name: &'static str)
        ensures
            name@ == "Dummy"@,
    {
        "Dummy"
    }

    pub fn run(&self) -> (points: Vec<DataPoint>)
        ensures
            points@.len() == 0,
    {
        Vec::new()
    }
}

/// The L1 data cache associativity entry of the benchmark list (no measurement yet).
pub struct L1dCacheAssociativityBenchmark;

impl L1dCacheAssociativityBenchmark {
    pub fn get_name(&self) -> (name: &'static str)
        ensures
            name@ == "L1D cache associativity"@,
    {
        "L1D cache associativity"
    }

    pub fn run(&self) -> (points: Vec<DataPoint>)
        ensures
            points@.len() == 0,
    {
        Vec::new()
    }
}

/// The L1 data TLB size entry of the benchmark list (no measurement yet).
pub struct L1dTlbSizeBenchmark;

impl L1dTlbSizeBenchmark {
    pub fn get_name(&self) -> (name: &'static str)
        ensures
            name@ == "L1D TLB size"@,
    {
        "L1D TLB size"
    }

    pub fn run(&self) -> (points: Vec<DataPoint>)
        ensures
            points@.len() == 0,
    {
        Vec::new()
    }
}

/// The page size entry of the benchmark list (no measurement yet).
pub struct PageSizeBenchmark;

impl PageSizeBenchmark {
    pub fn get_name(&self) -> (name: &'static str)
        ensures
            name@ == "Page size"@,
    {
        "Page size"
    }

    pub fn run(&self) -> (points: Vec<DataPoint>)
        ensures
            points@.len() == 0,
    {
        Vec::new()
    }
}

/// The single-core performance entry of the benchmark list (no measurement yet).
pub struct SingleCorePerformanceBenchmark;

impl SingleCorePerformanceBenchmark {
    pub fn get_name(&self) -> (name: &'static str)
        ensures
            name@ == "Single core performance"@,
    {
        "Single core performance"
    }

    pub fn run(&self) -> (points: Vec<DataPoint>)
        ensures
            points@.len() == 0,
    {
        Vec::new()
    }
}

} // verus!
