use cpu_fingerprint::benchmark::{
    run_benchmark, run_dummy_benchmark, run_page_size_benchmark, run_single_performance_benchmark,
    run_tlb_size_benchmark, BenchmarkType, Probe,
};
use cpu_fingerprint::cache_associativity::{associativity_point, CacheAssociativityProfiler};
use cpu_fingerprint::cache_size::CacheSizeProfiler;
use cpu_fingerprint::clock::{SyntheticClock, TickSource};
use cpu_fingerprint::page_size::{iteration, PageSizeProfiler};
use cpu_fingerprint::pending::{
    CpuCoresCountBenchmark, DataCacheSizeBenchmark, DummyBenchmark, L1dCacheAssociativityBenchmark,
    L1dTlbSizeBenchmark, PageSizeBenchmark, SingleCorePerformanceBenchmark, LoadBufferSizeProfiler, MemoryLatenciesProfiler, MultiCorePerformanceProfiler,
    PrefetcherProfiler, TimerPrecisionProfiler,
};
use cpu_fingerprint::single_core::{NoGap, RoundGap, SingleCorePerformanceProfiler};
use cpu_fingerprint::sweep::{DataPoint, ProbeFault};
use cpu_fingerprint::tlb_size::TlbSizeProfiler;

const KIB: u64 = 1024;

fn xs(points: &[DataPoint]) -> Vec<u64> {
    points.iter().map(|p| p.x).collect()
}

#[test]
fn cache_size_scenario_with_synthetic_clock() {
    let mut clock = SyntheticClock::new(1000);
    let probe = CacheSizeProfiler::with_sizes(vec![32 * KIB, 64 * KIB]);
    let res = probe.run(&mut clock).unwrap();
    assert_eq!(res.benchmark, BenchmarkType::CacheSize);
    assert_eq!(
        res.data_points,
        vec![DataPoint { x: 32768, y: 1000 }, DataPoint { x: 65536, y: 1000 }]
    );
    assert_eq!(res.elapsed_ticks, 5000);
}

#[test]
fn cache_size_sweep_emits_schedule_in_order() {
    let sizes: Vec<u64> = (1..32).map(|s| s * 32 * KIB).collect();
    let mut clock = SyntheticClock::new(1);
    let res = CacheSizeProfiler::with_sizes(sizes.clone()).run(&mut clock).unwrap();
    assert_eq!(res.data_points.len(), 31);
    assert_eq!(xs(&res.data_points), sizes);
}

#[test]
fn cache_size_rejects_unordered_or_out_of_range_schedules() {
    let mut clock = SyntheticClock::new(1000);
    for sizes in [vec![64 * KIB, 32 * KIB], vec![32 * KIB, 32 * KIB], vec![4], vec![(1 << 30) + 8]] {
        let r = CacheSizeProfiler::with_sizes(sizes).run(&mut clock);
        assert!(matches!(r, Err(ProbeFault::SweepDomain)));
    }
    // a refused run does not read the clock
    assert_eq!(clock.read(), 1000);
}

#[test]
fn default_schedules() {
    let cache = CacheSizeProfiler::new();
    assert_eq!(cache.sizes.len(), 146);
    assert_eq!(cache.sizes[0], KIB);
    assert_eq!(cache.sizes[1], 4 * KIB);
    assert_eq!(cache.sizes[128], 512 * KIB);
    assert_eq!(cache.sizes[129], 1024 * KIB);
    assert_eq!(cache.sizes[130], 2048 * KIB);
    assert_eq!(cache.sizes[145], 32768 * KIB);
    assert!(cache.sizes.windows(2).all(|w| w[0] < w[1]));

    let tlb = TlbSizeProfiler::new();
    assert_eq!(tlb.entries, (2..126).step_by(4).collect::<Vec<u64>>());

    let assoc = CacheAssociativityProfiler::new();
    assert_eq!(assoc.ways, (1..32).collect::<Vec<u64>>());
    assert_eq!(assoc.rounds, 64 << 16);

    let page = PageSizeProfiler::new();
    assert_eq!((page.start, page.step, page.limit), (2048, 16, 4 * (1024 * 1024 + 100)));

    let single = SingleCorePerformanceProfiler::new();
    assert_eq!((single.rounds, single.iterations, single.window), (3, 500, 1000));
}

#[test]
fn tlb_sweep_emits_page_counts() {
    let mut clock = SyntheticClock::new(7);
    let res = TlbSizeProfiler::with_entries(vec![2, 6, 10]).run(&mut clock).unwrap();
    assert_eq!(res.benchmark, BenchmarkType::TlbSize);
    assert_eq!(
        res.data_points,
        vec![DataPoint { x: 2, y: 7 }, DataPoint { x: 6, y: 7 }, DataPoint { x: 10, y: 7 }]
    );
    assert_eq!(res.elapsed_ticks, 7 * 7);
    let bad = TlbSizeProfiler::with_entries(vec![0, 2]).run(&mut clock);
    assert!(matches!(bad, Err(ProbeFault::SweepDomain)));
}

#[test]
fn associativity_sweep_divides_by_ways() {
    let mut clock = SyntheticClock::new(120);
    let res = CacheAssociativityProfiler::with_ways(vec![1, 2, 3, 4], 2).run(&mut clock).unwrap();
    assert_eq!(res.benchmark, BenchmarkType::CacheAssociativity);
    assert_eq!(
        res.data_points,
        vec![
            DataPoint { x: 1, y: 120 },
            DataPoint { x: 2, y: 60 },
            DataPoint { x: 3, y: 40 },
            DataPoint { x: 4, y: 30 },
        ]
    );
    let bad = CacheAssociativityProfiler::with_ways(vec![1, 4097], 2).run(&mut clock);
    assert!(matches!(bad, Err(ProbeFault::SweepDomain)));
    let bad_rounds = CacheAssociativityProfiler::with_ways(vec![1], u64::MAX).run(&mut clock);
    assert!(matches!(bad_rounds, Err(ProbeFault::SweepDomain)));
}

#[test]
fn associativity_boundary_with_modeled_latency() {
    // A memory model whose per-access latency jumps once more than 8 blocks
    // compete for one set: a timed pass over W blocks costs W * latency(W).
    let latency = |w: u64| if w > 8 { 310 } else { 100 };
    let points: Vec<DataPoint> = (1..=16).map(|w| associativity_point(w, w * latency(w))).collect();
    assert_eq!(xs(&points), (1..=16).collect::<Vec<u64>>());
    for p in &points {
        if p.x <= 8 {
            assert_eq!(p.y, points[0].y);
        } else {
            assert!(p.y > points[0].y);
        }
    }
    assert_eq!(associativity_point(3, 100).y, 33);
}

#[test]
fn page_size_sweep_covers_offsets_below_limit() {
    let mut clock = SyntheticClock::new(3);
    let res = PageSizeProfiler::with_sweep(512, 4, 530).run(&mut clock).unwrap();
    assert_eq!(res.benchmark, BenchmarkType::PageSize);
    assert_eq!(xs(&res.data_points), vec![512, 516, 520, 524, 528]);
    assert!(res.data_points.iter().all(|p| p.y == 3));
    let empty = PageSizeProfiler::with_sweep(600, 4, 530).run(&mut clock).unwrap();
    assert!(empty.data_points.is_empty());
    let bad = PageSizeProfiler::with_sweep(0, 0, 530).run(&mut clock);
    assert!(matches!(bad, Err(ProbeFault::SweepDomain)));
}

#[test]
fn default_page_size_sweep_length() {
    let mut clock = SyntheticClock::new(1);
    let res = PageSizeProfiler::new().run(&mut clock).unwrap();
    assert_eq!(res.data_points.len(), 262_041);
    assert_eq!(res.data_points[0].x, 2048);
    assert_eq!(res.data_points.last().unwrap().x, 2048 + 16 * 262_040);
}

#[test]
fn single_core_counts_turns_within_window() {
    let mut clock = SyntheticClock::new(1);
    let res = SingleCorePerformanceProfiler::with_config(2, 3, 10, 1000).run(&mut clock, &mut NoGap).unwrap();
    assert_eq!(res.benchmark, BenchmarkType::SinglePerformance);
    assert_eq!(xs(&res.data_points), vec![0, 1, 2, 3, 4, 5]);
    assert!(res.data_points.iter().all(|p| p.y == 9));
}

#[test]
fn single_core_stops_at_spin_limit_on_a_stopped_clock() {
    let mut clock = SyntheticClock::new(0);
    let res = SingleCorePerformanceProfiler::with_config(1, 2, 10, 50).run(&mut clock, &mut NoGap).unwrap();
    assert!(res.data_points.iter().all(|p| p.y == 50));
    let bad = SingleCorePerformanceProfiler::with_config(u64::MAX, 2, 10, 50).run(&mut clock, &mut NoGap);
    assert!(matches!(bad, Err(ProbeFault::SweepDomain)));
}

#[test]
fn rerun_gives_same_x_values() {
    let probe = Probe::CacheSize(CacheSizeProfiler::with_sizes(vec![8 * KIB, 16 * KIB, 24 * KIB]));
    let mut clock = SyntheticClock::new(0);
    let first = probe.run(&mut clock, &mut NoGap).unwrap();
    let second = probe.run(&mut clock, &mut NoGap).unwrap();
    assert_eq!(first.data_points.len(), second.data_points.len());
    assert_eq!(xs(&first.data_points), xs(&second.data_points));
}

#[test]
fn benchmark_names_and_clock_needs() {
    assert_eq!(BenchmarkType::PageSize.name(), "Page size");
    assert_eq!(BenchmarkType::CacheSize.name(), "Cache size");
    assert_eq!(BenchmarkType::TlbSize.name(), "TLB size");
    assert_eq!(BenchmarkType::SinglePerformance.name(), "Single-core performance");
    assert_eq!(BenchmarkType::CacheAssociativity.name(), "Cache associativity");
    assert!(BenchmarkType::CacheSize.needs_clock());
    assert!(!BenchmarkType::Dummy.needs_clock());
    assert_eq!(CacheSizeProfiler::new().get_name(), "Cache size");
    assert_eq!(TlbSizeProfiler::new().get_name(), "TLB size");
    assert_eq!(PageSizeProfiler::new().get_name(), "Page size");
}

#[test]
fn dummy_benchmark_measures_nothing() {
    let mut clock = SyntheticClock::new(1000);
    let res = run_benchmark(BenchmarkType::Dummy, &mut clock, &mut NoGap);
    assert_eq!(res.benchmark, BenchmarkType::Dummy);
    assert!(res.data_points.is_empty());
    assert_eq!(res.elapsed_ticks, 0);
    assert_eq!(clock.read(), 1000);
}

#[test]
fn pending_profilers_report_names_and_no_data() {
    assert_eq!(LoadBufferSizeProfiler.get_name(), "Load buffer profiler");
    assert_eq!(MemoryLatenciesProfiler.get_name(), "Memory latencies");
    assert_eq!(MultiCorePerformanceProfiler.get_name(), "Multi-core performance");
    assert_eq!(PrefetcherProfiler.get_name(), "Prefetcher");
    assert_eq!(TimerPrecisionProfiler.get_name(), "Timer precision");
    assert!(LoadBufferSizeProfiler.run().is_empty());
    assert!(TimerPrecisionProfiler.run().is_empty());
}

#[test]
fn single_access_is_timed_between_two_reads() {
    let mut clock = SyntheticClock::new(25);
    let buffer = vec![0u8; 64];
    assert_eq!(iteration(&mut clock, &buffer, 63), 25);
    assert_eq!(clock.read(), 75);
}

#[test]
fn default_benchmarks_follow_their_schedules() {
    let mut clock = SyntheticClock::new(1);
    let tlb = run_tlb_size_benchmark(&mut clock);
    assert_eq!(tlb.benchmark, BenchmarkType::TlbSize);
    assert_eq!(xs(&tlb.data_points), (2..126).step_by(4).collect::<Vec<u64>>());

    let page = run_page_size_benchmark(&mut clock);
    assert_eq!(page.benchmark, BenchmarkType::PageSize);
    assert_eq!(page.data_points.len(), 262_041);

    let single = run_single_performance_benchmark(&mut clock, &mut NoGap);
    assert_eq!(single.benchmark, BenchmarkType::SinglePerformance);
    assert_eq!(xs(&single.data_points), (0..1500).collect::<Vec<u64>>());
    assert!(single.data_points.iter().all(|p| p.y == 999));

    let dummy = run_dummy_benchmark();
    assert!(dummy.data_points.is_empty());
}

#[test]
fn default_probes_are_valid_for_every_kind() {
    let mut clock = SyntheticClock::new(1);
    for t in [BenchmarkType::PageSize, BenchmarkType::TlbSize, BenchmarkType::Dummy] {
        let p = Probe::default_for(t);
        assert_eq!(p.benchmark_type(), t);
        assert!(p.run(&mut clock, &mut NoGap).is_ok());
    }
    assert_eq!(Probe::default_for(BenchmarkType::CacheSize).benchmark_type(), BenchmarkType::CacheSize);
    assert_eq!(
        Probe::default_for(BenchmarkType::CacheAssociativity).benchmark_type(),
        BenchmarkType::CacheAssociativity
    );
}

#[test]
fn benchmark_list_entries_report_names_and_no_data() {
    assert_eq!(CpuCoresCountBenchmark.get_name(), "CPU cores count");
    assert_eq!(DataCacheSizeBenchmark.get_name(), "Data cache size");
    assert_eq!(DummyBenchmark.get_name(), "Dummy");
    assert_eq!(L1dCacheAssociativityBenchmark.get_name(), "L1D cache associativity");
    assert_eq!(L1dTlbSizeBenchmark.get_name(), "L1D TLB size");
    assert_eq!(PageSizeBenchmark.get_name(), "Page size");
    assert_eq!(SingleCorePerformanceBenchmark.get_name(), "Single core performance");
    assert!(CpuCoresCountBenchmark.run().is_empty());
    assert!(SingleCorePerformanceBenchmark.run().is_empty());
}

struct CountingGap {
    waits: Vec<u64>,
}

impl RoundGap for CountingGap {
    fn wait(&mut self, millis: u64) {
        self.waits.push(millis);
    }
}

#[test]
fn single_core_waits_between_rounds_only() {
    let mut clock = SyntheticClock::new(1);
    let mut gap = CountingGap { waits: Vec::new() };
    let mut probe = SingleCorePerformanceProfiler::with_config(3, 4, 10, 1000);
    probe.gap_millis = 100;
    let res = probe.run(&mut clock, &mut gap).unwrap();
    assert_eq!(res.data_points.len(), 12);
    assert_eq!(gap.waits, vec![100, 100]);
    assert_eq!(SingleCorePerformanceProfiler::new().gap_millis, 100);
}

#[test]
fn coarse_cache_schedule() {
    let sizes = CacheSizeProfiler::coarse().sizes;
    let expected: Vec<u64> = (10..150)
        .step_by(10)
        .chain((150..2000).step_by(50))
        .chain((2000..25000).step_by(500))
        .map(|k| k * KIB)
        .collect();
    assert_eq!(sizes.len(), 97);
    assert_eq!(sizes, expected);
}
