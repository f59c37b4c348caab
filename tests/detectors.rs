use antidebug::detectors::ebpf_compare::{check_ebpf_availability, check_ebpf_comparison, compare_observations};
use antidebug::detectors::hardware_bp::{
    check_via_data_access_pattern, check_via_proc_status, check_via_signal_exception, check_via_timing,
    may_probe_dr7,
};
use antidebug::detectors::int3::{analyze_int3_pattern, executable_regions, report_int3_region, scan_int3};
use antidebug::detectors::jitter::check_instruction_jitter;
use antidebug::detectors::ptrace::{check_ptrace, check_tracer_pid};
use antidebug::detectors::record_replay::{
    check_cpuid_hypervisor, check_environment_variable, check_exe_path, check_parent_comm,
    check_rdtsc_vs_wall_clock, check_signal_determinism, is_replay_variable, loadavg_at_least_half,
    parent_pid_from_status,
};
use antidebug::detectors::stats::{JitterStats, TimingStats};
use antidebug::detectors::timing::{check_rdtsc_timing, samples_fit, tsc_delta};
use antidebug::engine::policy::{DecisionEngine, DetectionSource, Verdict};
use antidebug::engine::responses::{apply_response, Response};

fn weights(e: &DecisionEngine) -> Vec<(DetectionSource, u32, u32)> {
    e.get_history().iter().map(|x| (x.source, x.weight, x.confidence)).collect()
}

/// Samples with the given mean whose standard deviation is 0.3 of it.
fn spread(mean: u64, n: usize) -> Vec<u64> {
    let d = mean * 3 / 10;
    (0..n).map(|i| if i % 2 == 0 { mean - d } else { mean + d }).collect()
}

#[test]
fn clean_idle_run() {
    let mut e = DecisionEngine::new();
    let overhead = spread(40, 1000);
    let exec = spread(1200, 100);
    check_rdtsc_timing(&mut e, &overhead, &exec);
    check_tracer_pid(&mut e, "Name:\tx\nTracerPid:\t0\n");
    check_via_proc_status(&mut e, "Name:\tx\nTracerPid:\t0\n");
    e.analyze_contradictions();
    assert_eq!(e.get_score(), 0);
    assert_eq!(e.decide(), Verdict::Clean);
    assert_eq!(apply_response(e.decide()), Response::Proceed);
}

#[test]
fn tracer_pid_fires_ptrace_evidence() {
    let mut e = DecisionEngine::new();
    check_tracer_pid(&mut e, "Name:\tx\nTracerPid:\t12345\n");
    e.analyze_contradictions();
    assert_eq!(weights(&e), vec![(DetectionSource::Ptrace, 70, 1000)]);
    assert_eq!(e.get_score(), 70);
    assert_eq!(e.decide(), Verdict::Instrumented);
    assert_eq!(apply_response(e.decide()), Response::Terminate(0xC0DE));
}

#[test]
fn tracer_pid_line_variants() {
    let mut e = DecisionEngine::new();
    check_tracer_pid(&mut e, "TracerPid:\t-3\n");
    check_tracer_pid(&mut e, "TracerPid:\tjunk\n");
    check_tracer_pid(&mut e, "TracerPid:\nTracerPid:\t9\n");
    assert_eq!(weights(&e), vec![(DetectionSource::Ptrace, 70, 1000)]);
}

#[test]
fn high_rdtsc_overhead_is_suspicious() {
    let mut e = DecisionEngine::new();
    check_rdtsc_timing(&mut e, &vec![8000; 1000], &spread(1200, 100));
    e.analyze_contradictions();
    assert_eq!(weights(&e), vec![(DetectionSource::Timing, 40, 1000)]);
    assert!(e.get_contradictions().is_empty());
    assert_eq!(e.get_score(), 40);
    assert_eq!(e.decide(), Verdict::Suspicious);
}

#[test]
fn timing_table() {
    let mut e = DecisionEngine::new();
    check_rdtsc_timing(&mut e, &vec![600; 10], &vec![60_000; 20]);
    assert_eq!(
        weights(&e),
        vec![(DetectionSource::Timing, 15, 1000), (DetectionSource::Timing, 30, 1000)]
    );
    let mut f = DecisionEngine::new();
    // mean 50, cv about 3: one large outlier among small values
    let mut jittery = vec![10u64; 100];
    jittery[0] = 4010;
    let mut slow = vec![100u64; 20];
    slow[3] = 2_000_000_000;
    check_rdtsc_timing(&mut f, &jittery, &slow);
    assert_eq!(
        weights(&f),
        vec![
            (DetectionSource::Timing, 20, 1000),
            (DetectionSource::Timing, 60, 1000),
            (DetectionSource::Timing, 10, 600)
        ]
    );
    assert_eq!(f.get_score(), 86);
}

#[test]
fn timing_stats_values() {
    let t = TimingStats::from_samples(&[2, 4, 6]);
    assert_eq!((t.samples, t.sum, t.sum_sq, t.min, t.max), (3, 12, 56, 2, 6));
    assert_eq!(t.mean_floor(), 4);
    assert!(t.mean_exceeds(3) && !t.mean_exceeds(4));
    assert!(t.mean_below(5) && !t.mean_below(4));
    // variance 8/3, mean 4: cv about 0.41
    assert!(!t.cv_exceeds(1));
    let empty = TimingStats::from_samples(&[]);
    assert_eq!((empty.samples, empty.sum, empty.min, empty.max), (0, 0, 0, 0));
    assert!(empty.mean_below(1) && !empty.mean_exceeds(0) && !empty.cv_exceeds(0));
    assert!(samples_fit(&[u64::MAX, 0]));
    assert!(!samples_fit(&[u64::MAX, 1]));
    assert_eq!(tsc_delta(10, 25), 15);
    assert_eq!(tsc_delta(25, 10), 0);
}

#[test]
fn jitter_stats_percentiles() {
    let mut samples: Vec<u64> = (1..=100).rev().collect();
    let s = JitterStats::from_samples("NOP x100", &mut samples);
    assert_eq!((s.p50, s.p95, s.p99), (51, 96, 100));
    assert_eq!((s.min, s.max, s.samples, s.sum), (1, 100, 100, 5050));
    assert_eq!(s.instruction, "NOP x100");
    assert!(!s.bimodal);
    assert_eq!(samples[0], 1);
    let mut again: Vec<u64> = (1..=100).rev().collect();
    let t = JitterStats::from_samples("NOP x100", &mut again);
    assert_eq!((s.p50, s.p95, s.p99, s.sum, s.sum_sq), (t.p50, t.p95, t.p99, t.sum, t.sum_sq));
    let mut two: Vec<u64> = vec![100; 90];
    two.extend(vec![5000; 10]);
    let b = JitterStats::from_samples("two", &mut two);
    assert_eq!((b.p50, b.p95), (100, 5000));
    assert!(b.bimodal);
}

#[test]
fn empty_samples_give_zero_stats() {
    let mut none: Vec<u64> = Vec::new();
    let s = JitterStats::from_samples("none", &mut none);
    assert_eq!((s.samples, s.sum, s.sum_sq, s.min, s.max), (0, 0, 0, 0, 0));
    assert_eq!((s.p50, s.p95, s.p99), (0, 0, 0));
    assert!(!s.bimodal);
    assert_eq!(s.mean_floor(), 0);
    assert!(!s.cv_exceeds(0));
}

#[test]
fn amplification_without_tracer_is_deceptive() {
    let mut e = DecisionEngine::new();
    let mut nop = vec![50u64; 1000];
    let mut mov = vec![50u64; 1000];
    let mut xor = vec![50u64; 1000];
    let mut amp = vec![2_000_000u64; 1000];
    let stats = check_instruction_jitter(&mut e, &mut nop, &mut mov, &mut xor, &mut amp);
    assert_eq!(stats.3.mean_floor(), 2_000_000);
    assert_eq!(weights(&e), vec![(DetectionSource::Jitter, 70, 1000)]);
    e.analyze_contradictions();
    assert_eq!(e.get_contradictions().len(), 1);
    assert!(e.get_score() > 30);
    assert_eq!(e.decide(), Verdict::Deceptive);
    assert_eq!(apply_response(e.decide()), Response::Terminate(0xDEAD));
}

#[test]
fn jitter_table() {
    let mut e = DecisionEngine::new();
    // mean 3800, standard deviation 5400: bimodal and cv above 1
    let mut nop = vec![2000u64; 90];
    nop.extend(vec![20_000u64; 10]);
    let mut mov = vec![100u64; 100];
    let mut xor = vec![100u64; 100];
    let mut amp = vec![200_000u64; 100];
    check_instruction_jitter(&mut e, &mut nop, &mut mov, &mut xor, &mut amp);
    assert_eq!(
        weights(&e),
        vec![
            (DetectionSource::Jitter, 40, 1000),
            (DetectionSource::Jitter, 20, 1000),
            (DetectionSource::Jitter, 25, 700),
            (DetectionSource::Jitter, 15, 500),
            (DetectionSource::Jitter, 20, 1000)
        ]
    );
    let mut f = DecisionEngine::new();
    let mut nop = vec![10u64; 100];
    let mut mov = vec![100u64; 100];
    let mut xor = vec![100u64; 100];
    let mut amp = vec![100u64; 100];
    check_instruction_jitter(&mut f, &mut nop, &mut mov, &mut xor, &mut amp);
    assert_eq!(weights(&f), vec![(DetectionSource::Jitter, 20, 1000)]);
}

#[test]
fn int3_padding_is_clean() {
    // 78 runs of 64 and one run of 8: 5000 INT3 bytes, longest run 64
    let mut region = Vec::new();
    for _ in 0..78 {
        region.extend(vec![0xCCu8; 64]);
        region.extend(vec![0x90u8; 16]);
    }
    region.extend(vec![0xCCu8; 8]);
    region.push(0xC3);
    assert_eq!(scan_int3(&region), 5000);
    assert_eq!(analyze_int3_pattern(&region), (5000, 64, true));
    let mut e = DecisionEngine::new();
    report_int3_region(&mut e, 0x1000, 0x1000 + region.len(), &region);
    assert_eq!(weights(&e), vec![(DetectionSource::Int3, 1, 100)]);
    assert_eq!(e.get_score(), 0);
    assert_eq!(e.decide(), Verdict::Clean);
}

#[test]
fn int3_classification_tiers() {
    assert_eq!(scan_int3(&[]), 0);
    assert_eq!(analyze_int3_pattern(&[]), (0, 0, false));
    let mut e = DecisionEngine::new();
    report_int3_region(&mut e, 1, 2, &[0x90, 0x90]);
    assert!(e.get_history().is_empty());
    // scattered single bytes: breakpoints
    let few = [0x90, 0xCC, 0x90, 0xCC, 0x90];
    assert_eq!(analyze_int3_pattern(&few), (2, 1, false));
    report_int3_region(&mut e, 1, 6, &few);
    // 30 scattered bytes: ambiguous
    let mut scattered = Vec::new();
    for _ in 0..30 {
        scattered.push(0xCCu8);
        scattered.push(0x90u8);
    }
    report_int3_region(&mut e, 1, 61, &scattered);
    // 150 bytes in runs of 5: clustered, moderate count
    let mut runs = Vec::new();
    for _ in 0..30 {
        runs.extend(vec![0xCCu8; 5]);
        runs.push(0x90);
    }
    assert_eq!(analyze_int3_pattern(&runs), (150, 5, true));
    report_int3_region(&mut e, 1, 181, &runs);
    assert_eq!(
        weights(&e),
        vec![
            (DetectionSource::Int3, 25, 800),
            (DetectionSource::Int3, 5, 500),
            (DetectionSource::Int3, 2, 300)
        ]
    );
    assert_eq!(e.get_score(), 20 + 2 + 0);
}

#[test]
fn maps_regions_of_own_executable() {
    let maps = "55d0c0000000-55d0c0002000 r--p 00000000 08:01 123 /usr/bin/prog\n\
55d0c0002000-55d0c0009000 r-xp 00002000 08:01 123 /usr/bin/prog\n\
7f0000000000-7f0000100000 r-xp 00000000 08:01 456 /usr/lib/libc.so.6\n\
0-1000 r-xp 00000000 08:01 123 /usr/bin/prog\n\
zz-55d0c000a000 r-xp 00000000 08:01 123 /usr/bin/prog\n\
55d0c000b000-55d0c000c000 r-xp 00000000 08:01 123 /usr/bin/prog\n\
55d0c000d000-55d0c000e000 r-xp 00000000 08:01 124 /usr/bin/prog.old\n\
55d0c000f000-55d0c0010000 r--p 00000000 08:01 123 /usr/bin/prog r-xp\n";
    assert_eq!(
        executable_regions(maps, "/usr/bin/prog"),
        vec![(0x55d0c0002000, 0x55d0c0009000), (0x55d0c000b000, 0x55d0c000c000)]
    );
    assert_eq!(executable_regions("", "/usr/bin/prog"), vec![]);
}

#[test]
fn hardware_breakpoint_checks() {
    assert!(may_probe_dr7(0, false));
    assert!(!may_probe_dr7(12, false));
    assert!(!may_probe_dr7(0, true));
    let mut e = DecisionEngine::new();
    check_via_signal_exception(&mut e, 0, Some(true));
    check_via_signal_exception(&mut e, 0, None);
    assert!(e.get_history().is_empty());
    check_via_signal_exception(&mut e, 0, Some(false));
    check_via_signal_exception(&mut e, 77, None);
    check_via_timing(&mut e, &[60_000; 10]);
    check_via_timing(&mut e, &[1000, 1000, 1000, 20_000, 1000, 1000, 1000, 1000, 1000, 1000]);
    check_via_timing(&mut e, &[0, 5]);
    check_via_proc_status(&mut e, "Name:\tx\nDrX:\t1\nX86_HW_DBG: 0\nFoo:\tDrX:\n");
    check_via_data_access_pattern(&mut e, 300_000);
    check_via_data_access_pattern(&mut e, 60_000);
    check_via_data_access_pattern(&mut e, 1_000);
    let h = DetectionSource::HardwareBreakpoint;
    assert_eq!(
        weights(&e),
        vec![
            (h, 30, 1000),
            (h, 20, 700),
            (h, 50, 1000),
            (h, 15, 1000),
            (h, 15, 1000),
            (h, 40, 1000),
            (h, 40, 1000),
            (h, 40, 1000),
            (h, 10, 400)
        ]
    );
}

#[test]
fn record_replay_checks() {
    let mut e = DecisionEngine::new();
    check_cpuid_hypervisor(&mut e, 0x0000_0001, 0x4000_0001, 0, 0, 0);
    assert!(e.get_history().is_empty());
    // "KVMKVMKVM\0\0\0": a VM, not a replay system
    check_cpuid_hypervisor(&mut e, 0x8000_0000, 0x4000_0001, 0x4b4d_564b, 0x564b_4d56, 0x0000_004d);
    // "rr-replay..." in the vendor signature
    let ebx = u32::from_le_bytes(*b"rr-r");
    check_cpuid_hypervisor(&mut e, 0x8000_0000, 0x4000_0000, ebx, 0, 0);
    let r = DetectionSource::RecordReplay;
    assert_eq!(weights(&e), vec![(r, 15, 400), (r, 15, 400), (r, 50, 1000)]);
    let mut f = DecisionEngine::new();
    check_rdtsc_vs_wall_clock(&mut f, 30_000_000, 10_000_000);
    check_rdtsc_vs_wall_clock(&mut f, 500_000, 10_000_000);
    check_rdtsc_vs_wall_clock(&mut f, 300_000_000, 10_000_000);
    check_rdtsc_vs_wall_clock(&mut f, 0, 0);
    assert_eq!(weights(&f), vec![(r, 40, 1000), (r, 30, 1000)]);
}

#[test]
fn signal_determinism_needs_load() {
    assert!(loadavg_at_least_half("0.52 0.58 0.59 1/467 12345\n"));
    assert!(!loadavg_at_least_half("0.49 0.58 0.59 1/467 12345\n"));
    assert!(loadavg_at_least_half("2.00 1.00 1.00 1/1 1\n"));
    assert!(loadavg_at_least_half(".5"));
    assert!(!loadavg_at_least_half("0.0"));
    assert!(!loadavg_at_least_half("x"));
    assert!(!loadavg_at_least_half(""));
    let mut e = DecisionEngine::new();
    check_signal_determinism(&mut e, &[11; 20], "0.10 0.10 0.10 1/1 1\n");
    check_signal_determinism(&mut e, &[11, 21, 11], "3.00 0.10 0.10 1/1 1\n");
    check_signal_determinism(&mut e, &[], "3.00 0.10 0.10 1/1 1\n");
    assert!(e.get_history().is_empty());
    check_signal_determinism(&mut e, &[11; 20], "3.00 0.10 0.10 1/1 1\n");
    assert_eq!(weights(&e), vec![(DetectionSource::RecordReplay, 2, 150)]);
    assert_eq!(e.get_score(), 0);
}

#[test]
fn process_artifacts() {
    assert!(is_replay_variable("_RR_TRACE_DIR"));
    assert!(is_replay_variable("RR_ANYTHING"));
    assert!(is_replay_variable("LD_PRELOAD"));
    assert!(!is_replay_variable("PATH"));
    assert_eq!(parent_pid_from_status("Name:\tx\nPPid:\t4321\n"), Some(4321));
    assert_eq!(parent_pid_from_status("PPid:\tx\nPPid:\t7\n"), Some(7));
    assert_eq!(parent_pid_from_status("Name:\tx\n"), None);
    let mut e = DecisionEngine::new();
    check_exe_path(&mut e, "/usr/bin/prog");
    check_environment_variable(&mut e, "PATH", "/opt/rr/bin");
    check_environment_variable(&mut e, "LD_PRELOAD", "/usr/lib/libfoo.so");
    check_parent_comm(&mut e, "bash\n");
    assert!(e.get_history().is_empty());
    check_exe_path(&mut e, "/home/u/rr-trace/prog");
    check_environment_variable(&mut e, "LD_PRELOAD", "/usr/lib/rr/librrpreload.so");
    check_environment_variable(&mut e, "RR_MODE", "replay");
    check_parent_comm(&mut e, "rr\n");
    let r = DetectionSource::RecordReplay;
    assert_eq!(weights(&e), vec![(r, 60, 1000), (r, 40, 1000), (r, 40, 1000), (r, 50, 1000)]);
}

#[test]
fn observer_comparison() {
    let ok = compare_observations(3000, 10, 1000, 10);
    assert!(!ok.discrepancy_detected);
    assert_eq!(ok.timing_discrepancy_ns, Some(0));
    assert_eq!(ok.external_syscall_count, Some(10));
    assert_eq!(ok.notes, "Observations consistent within tolerance.");
    let count = compare_observations(3000, 9, 1000, 10);
    assert!(count.discrepancy_detected);
    let slow = compare_observations(40_000, 10, 1000, 10);
    assert!(slow.discrepancy_detected);
    assert_eq!(slow.timing_discrepancy_ns, Some(12_333));
    let fast = compare_observations(200, 10, 1000, 10);
    assert!(fast.discrepancy_detected);
    assert_eq!(fast.timing_discrepancy_ns, Some(-933));
    assert!(!compare_observations(10, 10, 0, 10).discrepancy_detected);
    assert!(compare_observations(11, 10, 0, 10).discrepancy_detected);
    let mut e = DecisionEngine::new();
    let none: Vec<_> = (0..5).map(|_| compare_observations(3000, 10, 1000, 10)).collect();
    check_ebpf_comparison(&mut e, &none);
    assert!(e.get_history().is_empty());
    let mut two: Vec<_> = (0..3).map(|_| compare_observations(3000, 10, 1000, 10)).collect();
    two.push(compare_observations(200, 10, 1000, 10));
    two.push(compare_observations(3000, 9, 1000, 10));
    check_ebpf_comparison(&mut e, &two);
    assert_eq!(weights(&e), vec![(DetectionSource::EbpfComparison, 30, 400)]);
    assert_eq!(e.get_score(), 12);
}

#[test]
fn ebpf_availability() {
    assert!(check_ebpf_availability(true, 0, "6.1.0-13-amd64\n"));
    assert!(check_ebpf_availability(true, 0, "4.18.0\n"));
    assert!(!check_ebpf_availability(true, 0, "4.17.9\n"));
    assert!(!check_ebpf_availability(true, 1000, "6.1.0\n"));
    assert!(!check_ebpf_availability(false, 0, "6.1.0\n"));
    assert!(!check_ebpf_availability(true, 0, "6"));
    assert!(check_ebpf_availability(true, 0, "5.x"));
}

#[test]
fn ptrace_traceme() {
    let mut e = DecisionEngine::new();
    check_ptrace(&mut e, false, "");
    assert!(e.get_history().is_empty());
    check_ptrace(&mut e, true, "Operation not permitted (os error 1)");
    assert_eq!(weights(&e), vec![(DetectionSource::Ptrace, 80, 1000)]);
}
