use cpu_fingerprint::benchmark::{BenchmarkType, Probe};
use cpu_fingerprint::cache_size::CacheSizeProfiler;
use cpu_fingerprint::clock::{Clock, SyntheticClock, TickSource};
use cpu_fingerprint::lifecycle::{ClockAction, ClockEvent, ClockPhase};
use cpu_fingerprint::session::{
    default_benchmarks, open_clock, run_session, SessionFault, SetupFault,
};
use cpu_fingerprint::single_core::NoGap;
use cpu_fingerprint::sweep::{DataPoint, ProbeFault};
use cpu_fingerprint::tlb_size::TlbSizeProfiler;

#[test]
fn unsupported_shared_memory_fails_before_any_probe() {
    let probes = vec![Probe::CacheSize(CacheSizeProfiler::with_sizes(vec![1024]))];
    let clock: Result<Clock, SetupFault> = open_clock(false);
    let r = run_session(clock, &mut NoGap, &probes, "model".to_string(), "agent".to_string());
    assert!(matches!(r, Err(SessionFault::Setup(SetupFault::SharedMemoryUnsupported))));
}

#[test]
fn handshake_timeout_is_a_setup_fault() {
    let probes = vec![Probe::Dummy];
    let clock: Result<SyntheticClock, SetupFault> = Err(SetupFault::HandshakeTimeout);
    let r = run_session(clock, &mut NoGap, &probes, String::new(), String::new());
    assert!(matches!(r, Err(SessionFault::Setup(SetupFault::HandshakeTimeout))));
}

#[test]
fn session_runs_probes_in_order() {
    let probes = vec![
        Probe::CacheSize(CacheSizeProfiler::with_sizes(vec![32 * 1024, 64 * 1024])),
        Probe::Dummy,
        Probe::TlbSize(TlbSizeProfiler::with_entries(vec![2, 6])),
    ];
    let r = run_session(Ok(SyntheticClock::new(1000)), &mut NoGap, &probes, "i7".to_string(), "ua".to_string());
    let env = r.unwrap();
    assert_eq!(env.model, "i7");
    assert_eq!(env.user_agent, "ua");
    let kinds: Vec<BenchmarkType> = env.benchmark_results.iter().map(|r| r.benchmark).collect();
    assert_eq!(kinds, vec![BenchmarkType::CacheSize, BenchmarkType::Dummy, BenchmarkType::TlbSize]);
    assert_eq!(
        env.benchmark_results[0].data_points,
        vec![DataPoint { x: 32768, y: 1000 }, DataPoint { x: 65536, y: 1000 }]
    );
    assert_eq!(env.benchmark_results[2].data_points.len(), 2);
    // the clock is shared across the probes: the third probe starts later
    assert_eq!(env.benchmark_results[0].elapsed_ticks, 5000);
    assert_eq!(env.benchmark_results[2].elapsed_ticks, 5000);
}

#[test]
fn faulty_probe_aborts_the_session() {
    let probes = vec![
        Probe::Dummy,
        Probe::CacheSize(CacheSizeProfiler::with_sizes(vec![2048, 1024])),
        Probe::Dummy,
    ];
    let r = run_session(Ok(SyntheticClock::new(1)), &mut NoGap, &probes, String::new(), String::new());
    assert!(matches!(r, Err(SessionFault::Probe(1, ProbeFault::SweepDomain))));
}

#[test]
fn lifecycle_happy_path() {
    let (p, a) = ClockPhase::Created.step(ClockEvent::Start);
    assert_eq!((p, a), (ClockPhase::Started, ClockAction::SpawnDriver));
    assert!(!p.may_read_clock());
    let (p, a) = p.step(ClockEvent::DriverReady);
    assert_eq!((p, a), (ClockPhase::Ready, ClockAction::RunProbes));
    assert!(p.may_read_clock());
    let (p, a) = p.step(ClockEvent::ProbesStarted);
    assert_eq!((p, a), (ClockPhase::Running, ClockAction::Ignore));
    let (p, a) = p.step(ClockEvent::ProbesEnded);
    assert_eq!((p, a), (ClockPhase::Stopped, ClockAction::StopDriver));
    assert!(!p.may_read_clock());
}

#[test]
fn lifecycle_failures() {
    let (p, a) = ClockPhase::Created.step(ClockEvent::Unsupported);
    assert_eq!(p, ClockPhase::Failed(SetupFault::SharedMemoryUnsupported));
    assert_eq!(a, ClockAction::ReportFault(SetupFault::SharedMemoryUnsupported));
    let (p, a) = ClockPhase::Started.step(ClockEvent::HandshakeTimedOut);
    assert_eq!((p, a), (ClockPhase::Failed(SetupFault::HandshakeTimeout), ClockAction::StopDriver));
    // a readiness message that arrives after the timeout changes nothing
    let (q, a) = p.step(ClockEvent::DriverReady);
    assert_eq!((q, a), (p, ClockAction::Ignore));
    // probes cannot start before the driver is ready
    let (q, a) = ClockPhase::Started.step(ClockEvent::ProbesStarted);
    assert_eq!((q, a), (ClockPhase::Started, ClockAction::Ignore));
}

#[test]
fn shared_clock_session_end_to_end() {
    let driver = Clock::new();
    let mut reader = driver.handle();
    for _ in 0..10 {
        driver.increment();
    }
    assert_eq!(reader.read(), 10);
    let probes = vec![Probe::Dummy];
    let env = run_session(Ok(reader), &mut NoGap, &probes, "m".to_string(), "u".to_string()).unwrap();
    assert_eq!(env.benchmark_results.len(), 1);
}

#[test]
fn envelope_names_and_times_follow_run_order() {
    let probes = vec![
        Probe::TlbSize(TlbSizeProfiler::with_entries(vec![2])),
        Probe::Dummy,
    ];
    let env = run_session(Ok(SyntheticClock::new(10)), &mut NoGap, &probes, String::new(), String::new())
        .unwrap();
    assert_eq!(env.names(), vec!["TLB size", "Dummy"]);
    assert_eq!(env.times(), vec![30, 0]);
}

#[test]
fn default_benchmark_list() {
    assert_eq!(
        default_benchmarks(),
        vec![
            BenchmarkType::PageSize,
            BenchmarkType::CacheSize,
            BenchmarkType::TlbSize,
            BenchmarkType::SinglePerformance,
            BenchmarkType::CacheAssociativity,
        ]
    );
}
