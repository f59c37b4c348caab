//! Hardware breakpoint (DR0-DR7) detection: a privileged debug-register read
//! that must fault, NOP-loop and data-access timings, and debug hints in the
//! process status.
use vstd::prelude::*;
use vstd::string::StringSliceAdditionalSpecFns;
use crate::detectors::stats::{TimingStats, mean_gt, sample_sum};
use crate::engine::policy::{
    only_appends, group_only_appends, DecisionEngine, DetectionSource, Finding, FULL_CONFIDENCE,
    finding, findings_of, only_if,
};
use crate::parse::{
    has_at, is_line_start, matches_at,
};
use crate::text::with_number;

verus! {

broadcast use group_only_appends;

/// The debug-register fault probe may run: no tracer is attached (it would
/// take the fault) and debugger-compatible mode is off.
pub open spec fn dr7_probe_allowed(tracer_pid: u32, compat_mode: bool) -> bool {
    tracer_pid == 0 && !compat_mode
}

/// See `dr7_probe_allowed`.
pub fn may_probe_dr7(tracer_pid: u32, compat_mode: bool) -> (r: bool)
    ensures
        r == dr7_probe_allowed(tracer_pid, compat_mode),
{
    tracer_pid == 0 && !compat_mode
}

/// Findings of the fault probe. With a tracer attached the probe is skipped
/// and the tracer reported instead; otherwise `faulted` is the probe's
/// outcome (none when it did not run), and a read that did not fault means a
/// hypervisor masked it.
pub open spec fn dr7_fault_findings(tracer_pid: u32, faulted: Option<bool>) -> Seq<Finding> {
    if tracer_pid > 0 {
        seq![finding(DetectionSource::HardwareBreakpoint, 20, 700)]
    } else {
        only_if(
            faulted == Some(false),
            finding(DetectionSource::HardwareBreakpoint, 30, FULL_CONFIDENCE),
        )
    }
}

/// Report the outcome of the debug-register fault probe (see `dr7_fault_findings`).
pub fn check_via_signal_exception(engine: &mut DecisionEngine, tracer_pid: u32, faulted: Option<bool>)
    requires
        old(engine).consistent(),
    ensures
        final(engine).consistent(),
        only_appends(*old(engine), *final(engine)),
        findings_of(final(engine).history()) == findings_of(old(engine).history())
            + dr7_fault_findings(tracer_pid, faulted),
        final(engine).contradictions() == old(engine).contradictions(),
        old(engine).undamped() ==> final(engine).undamped(),
{
    if tracer_pid > 0 {
        let msg = with_number("DR7 signal check skipped due to tracer (PID ", tracer_pid as u64, ")");
        engine.report_with_confidence(DetectionSource::HardwareBreakpoint, 20, 700, msg.as_str());
    } else {
        match faulted {
            Some(false) => {
                engine.report(
                    DetectionSource::HardwareBreakpoint,
                    30,
                    "DR7 access did not fault - hypervisor virtualization detected",
                );
            },
            _ => {},
        }
    }
    assert(findings_of(engine.history()) =~= findings_of(old(engine).history())
        + dr7_fault_findings(tracer_pid, faulted));
}

/// NOP-loop timings: mean above 50,000 or 10,000 cycles, then a slowest run
/// over ten times the fastest one.
pub open spec fn dr7_timing_findings(t: TimingStats) -> Seq<Finding> {
    let h = DetectionSource::HardwareBreakpoint;
    (if mean_gt(t.samples as int, t.sum as int, 50_000) {
        seq![finding(h, 50, FULL_CONFIDENCE)]
    } else {
        only_if(mean_gt(t.samples as int, t.sum as int, 10_000), finding(h, 20, FULL_CONFIDENCE))
    }) + only_if(t.max > 10 * t.min, finding(h, 15, FULL_CONFIDENCE))
}

/// Report the timings of the debug-register indicator loop.
pub fn check_via_timing(engine: &mut DecisionEngine, timings: &[u64])
    requires
        old(engine).consistent(),
        sample_sum(timings@) <= u64::MAX,
    ensures
        final(engine).consistent(),
        only_appends(*old(engine), *final(engine)),
        findings_of(final(engine).history()) == findings_of(old(engine).history())
            + dr7_timing_findings(TimingStats::spec_of(timings@)),
        final(engine).contradictions() == old(engine).contradictions(),
        old(engine).undamped() ==> final(engine).undamped(),
{
    let stats = TimingStats::from_samples(timings);
    proof {
        TimingStats::lemma_spec_of(stats, timings@);
    }
    let h = DetectionSource::HardwareBreakpoint;
    let mean = stats.mean_floor();
    if stats.mean_exceeds(50_000) {
        let msg = with_number("NOP timing suggests hardware BP activity: mean=", mean, " cycles");
        engine.report(h, 50, msg.as_str());
    } else if stats.mean_exceeds(10_000) {
        let msg = with_number("NOP timing elevated (possible HW BP): mean=", mean, " cycles");
        engine.report(h, 20, msg.as_str());
    }
    let ghost mid = findings_of(engine.history());
    if stats.max as u128 > stats.min as u128 * 10 {
        let a = with_number("NOP timing variance suggests intermittent HW BP: min=", stats.min, ", max=");
        let b = with_number("", stats.max, "");
        let mut msg = a;
        msg.append(b.as_str());
        engine.report(h, 15, msg.as_str());
    }
    assert(findings_of(engine.history()) =~= findings_of(old(engine).history())
        + dr7_timing_findings(stats));
}

/// A status line that exposes debug registers (not standard Linux).
pub open spec fn debug_hint_line(t: Seq<u8>, i: int) -> bool {
    is_line_start(t, i) && (has_at(t, i, "X86_HW_DBG:".spec_bytes()) || has_at(
        t,
        i,
        "DrX:".spec_bytes(),
    ))
}

/// One finding for each debug-hint line that starts before position `n`.
pub open spec fn debug_hint_findings(t: Seq<u8>, n: int) -> Seq<Finding>
    decreases n,
{
    if n <= 0 {
        Seq::empty()
    } else {
        debug_hint_findings(t, n - 1) + only_if(
            debug_hint_line(t, n - 1),
            finding(DetectionSource::HardwareBreakpoint, 40, FULL_CONFIDENCE),
        )
    }
}

/// Report each debug-register line of a process status text.
pub fn check_via_proc_status(engine: &mut DecisionEngine, status: &str)
    requires
        old(engine).consistent(),
    ensures
        final(engine).consistent(),
        only_appends(*old(engine), *final(engine)),
        findings_of(final(engine).history()) == findings_of(old(engine).history())
            + debug_hint_findings(status.spec_bytes(), status.spec_bytes().len() as int),
        final(engine).contradictions() == old(engine).contradictions(),
        old(engine).undamped() ==> final(engine).undamped(),
{
    let t = status.as_bytes();
    let tag1 = "X86_HW_DBG:".as_bytes();
    let tag2 = "DrX:".as_bytes();
    let ghost start = findings_of(engine.history());
    let mut i: usize = 0;
    while i < t.len()
        invariant
            i <= t@.len(),
            t@ == status.spec_bytes(),
            tag1@ == "X86_HW_DBG:".spec_bytes(),
            tag2@ == "DrX:".spec_bytes(),
            engine.consistent(),
            only_appends(*old(engine), *engine),
            findings_of(engine.history()) == start + debug_hint_findings(t@, i as int),
            engine.contradictions() == old(engine).contradictions(),
            old(engine).undamped() ==> engine.undamped(),
        decreases t@.len() - i,
    {
        let ghost before = findings_of(engine.history());
        if (i == 0 || t[i - 1] == 10) && (matches_at(t, i, tag1) || matches_at(t, i, tag2)) {
            let mut msg = String::from_str("Unexpected debug register info in /proc at byte ");
            let pos = with_number("", i as u64, "");
            msg.append(pos.as_str());
            engine.report(DetectionSource::HardwareBreakpoint, 40, msg.as_str());
        }
        assert(findings_of(engine.history()) =~= start + debug_hint_findings(t@, i + 1));
        i = i + 1;
    }
}

/// Time of 1000 alternating accesses to a small buffer: over 200,000 cycles
/// a likely data breakpoint, over 50,000 a weak hint.
pub open spec fn data_access_findings(delta: u64) -> Seq<Finding> {
    let h = DetectionSource::HardwareBreakpoint;
    if delta > 200_000 {
        seq![finding(h, 40, FULL_CONFIDENCE)]
    } else {
        only_if(delta > 50_000, finding(h, 10, 400))
    }
}

/// Report the timing of the data-access pattern (`delta` cycles).
pub fn check_via_data_access_pattern(engine: &mut DecisionEngine, delta: u64)
    requires
        old(engine).consistent(),
    ensures
        final(engine).consistent(),
        only_appends(*old(engine), *final(engine)),
        findings_of(final(engine).history()) == findings_of(old(engine).history())
            + data_access_findings(delta),
        final(engine).contradictions() == old(engine).contradictions(),
        old(engine).undamped() ==> final(engine).undamped(),
{
    if delta > 200_000 {
        let msg = with_number("Data access pattern timing anomaly (data BP?): ", delta, " cycles");
        engine.report(DetectionSource::HardwareBreakpoint, 40, msg.as_str());
    } else if delta > 50_000 {
        let msg = with_number("Data access slightly slow (possible data BP): ", delta, " cycles");
        engine.report_with_confidence(DetectionSource::HardwareBreakpoint, 10, 400, msg.as_str());
    }
    assert(findings_of(engine.history()) =~= findings_of(old(engine).history())
        + data_access_findings(delta));
}

} // verus!
