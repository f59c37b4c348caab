//! Statistical timing: overhead of back-to-back TSC reads and the execution
//! time of a fixed block of additions.
use vstd::prelude::*;
use crate::detectors::stats::{TimingStats, cv_gt, lemma_prefix_sum_le, mean_gt, mean_lt, sample_sum};
use crate::engine::policy::{
    only_appends, group_only_appends, DecisionEngine, DetectionSource, Finding, FULL_CONFIDENCE,
    finding, findings_of, only_if,
};
use crate::text::with_number;

verus! {

broadcast use group_only_appends;

/// Difference of two TSC readings, 0 when the counter went backwards.
pub fn tsc_delta(start: u64, end: u64) -> (r: u64)
    ensures
        r == if end >= start { end - start } else { 0 },
{
    if end >= start {
        end - start
    } else {
        0
    }
}

/// The samples' sum fits in a `u64`, as the statistics need.
pub fn samples_fit(samples: &[u64]) -> (r: bool)
    ensures
        r == (sample_sum(samples@) <= u64::MAX),
{
    let mut total: u64 = 0;
    let mut i: usize = 0;
    while i < samples.len()
        invariant
            i <= samples@.len(),
            total == sample_sum(samples@.take(i as int)),
            sample_sum(samples@.take(i as int)) <= u64::MAX,
        decreases samples@.len() - i,
    {
        proof {
            assert(samples@.take(i + 1).drop_last() =~= samples@.take(i as int));
        }
        match total.checked_add(samples[i]) {
            Some(t) => total = t,
            None => {
                proof {
                    lemma_prefix_sum_le(samples@, i as int + 1);
                }
                return false;
            },
        }
        i = i + 1;
    }
    assert(samples@.take(i as int) =~= samples@);
    true
}

/// Level of the TSC-read overhead: critical above a mean of 5000 cycles,
/// elevated above 500.
pub open spec fn overhead_level_findings(overhead: TimingStats) -> Seq<Finding> {
    let t = DetectionSource::Timing;
    if mean_gt(overhead.samples as int, overhead.sum as int, 5000) {
        seq![finding(t, 40, FULL_CONFIDENCE)]
    } else {
        only_if(
            mean_gt(overhead.samples as int, overhead.sum as int, 500),
            finding(t, 15, FULL_CONFIDENCE),
        )
    }
}

/// Jitter of a cheap TSC read: cv above 2 with a mean under 500 cycles.
pub open spec fn overhead_jitter_findings(overhead: TimingStats) -> Seq<Finding> {
    only_if(
        cv_gt(overhead.samples as int, overhead.sum as int, overhead.sum_sq as int, 2) && mean_lt(
            overhead.samples as int,
            overhead.sum as int,
            500,
        ),
        finding(DetectionSource::Timing, 20, FULL_CONFIDENCE),
    )
}

/// Level of the work block's execution time: above 1,000,000, 50,000 or
/// 10,000 cycles on average.
pub open spec fn exec_level_findings(exec: TimingStats) -> Seq<Finding> {
    let t = DetectionSource::Timing;
    let n = exec.samples as int;
    let s = exec.sum as int;
    if mean_gt(n, s, 1_000_000) {
        seq![finding(t, 60, FULL_CONFIDENCE)]
    } else if mean_gt(n, s, 50_000) {
        seq![finding(t, 30, FULL_CONFIDENCE)]
    } else {
        only_if(mean_gt(n, s, 10_000), finding(t, 10, FULL_CONFIDENCE))
    }
}

/// Spread of the execution times: the slowest run over 50 times the fastest,
/// over more than 10 runs.
pub open spec fn exec_spread_findings(exec: TimingStats) -> Seq<Finding> {
    only_if(
        exec.max > 50 * exec.min && exec.samples > 10,
        finding(DetectionSource::Timing, 10, 600),
    )
}

/// What the timing detector reports for the TSC-overhead and execution statistics.
pub open spec fn timing_findings(overhead: TimingStats, exec: TimingStats) -> Seq<Finding> {
    overhead_level_findings(overhead) + overhead_jitter_findings(overhead) + exec_level_findings(
        exec,
    ) + exec_spread_findings(exec)
}

/// Report the timing detector's findings from its two sample sets: back-to-back
/// TSC-read deltas and execution times of the fixed work block.
pub fn check_rdtsc_timing(
    engine: &mut DecisionEngine,
    overhead_samples: &[u64],
    execution_samples: &[u64],
)
    requires
        old(engine).consistent(),
        sample_sum(overhead_samples@) <= u64::MAX,
        sample_sum(execution_samples@) <= u64::MAX,
    ensures
        final(engine).consistent(),
        only_appends(*old(engine), *final(engine)),
        findings_of(final(engine).history()) == findings_of(old(engine).history()) + timing_findings(
            TimingStats::spec_of(overhead_samples@),
            TimingStats::spec_of(execution_samples@),
        ),
        final(engine).contradictions() == old(engine).contradictions(),
        old(engine).undamped() ==> final(engine).undamped(),
{
    let overhead = TimingStats::from_samples(overhead_samples);
    let exec = TimingStats::from_samples(execution_samples);
    report_timing_stats(engine, &overhead, &exec);
    proof {
        TimingStats::lemma_spec_of(overhead, overhead_samples@);
        TimingStats::lemma_spec_of(exec, execution_samples@);
    }
}

/// Report the timing detector's findings for computed statistics.
pub fn report_timing_stats(engine: &mut DecisionEngine, overhead: &TimingStats, exec: &TimingStats)
    requires
        old(engine).consistent(),
    ensures
        final(engine).consistent(),
        only_appends(*old(engine), *final(engine)),
        findings_of(final(engine).history()) == findings_of(old(engine).history()) + timing_findings(
            *overhead,
            *exec,
        ),
        final(engine).contradictions() == old(engine).contradictions(),
        old(engine).undamped() ==> final(engine).undamped(),
{
    let ghost f0 = findings_of(engine.history());
    report_overhead_level(engine, overhead);
    let ghost f1 = findings_of(engine.history());
    report_overhead_jitter(engine, overhead);
    let ghost f2 = findings_of(engine.history());
    report_exec_level(engine, exec);
    let ghost f3 = findings_of(engine.history());
    report_exec_spread(engine, exec);
    proof {
        assert(findings_of(engine.history()) =~= f0 + timing_findings(*overhead, *exec));
    }
}

fn report_overhead_level(engine: &mut DecisionEngine, overhead: &TimingStats)
    requires
        old(engine).consistent(),
    ensures
        final(engine).consistent(),
        only_appends(*old(engine), *final(engine)),
        findings_of(final(engine).history()) == findings_of(old(engine).history())
            + overhead_level_findings(*overhead),
        final(engine).contradictions() == old(engine).contradictions(),
        old(engine).undamped() ==> final(engine).undamped(),
{
    let t = DetectionSource::Timing;
    let om = overhead.mean_floor();
    if overhead.mean_exceeds(5000) {
        let msg = with_number("RDTSC overhead critical (Emulation/DBI?): mean=", om, " cycles");
        engine.report(t, 40, msg.as_str());
    } else if overhead.mean_exceeds(500) {
        let msg = with_number("RDTSC overhead elevated (VM/Instrumentation?): mean=", om, " cycles");
        engine.report(t, 15, msg.as_str());
    }
    assert(findings_of(engine.history()) =~= findings_of(old(engine).history())
        + overhead_level_findings(*overhead));
}

fn report_overhead_jitter(engine: &mut DecisionEngine, overhead: &TimingStats)
    requires
        old(engine).consistent(),
    ensures
        final(engine).consistent(),
        only_appends(*old(engine), *final(engine)),
        findings_of(final(engine).history()) == findings_of(old(engine).history())
            + overhead_jitter_findings(*overhead),
        final(engine).contradictions() == old(engine).contradictions(),
        old(engine).undamped() ==> final(engine).undamped(),
{
    if overhead.cv_exceeds(2) && overhead.mean_below(500) {
        let msg = with_number(
            "RDTSC overhead has high jitter (intermittent instrumentation?): mean=",
            overhead.mean_floor(),
            " cycles, cv above 2",
        );
        engine.report(DetectionSource::Timing, 20, msg.as_str());
    }
    assert(findings_of(engine.history()) =~= findings_of(old(engine).history())
        + overhead_jitter_findings(*overhead));
}

fn report_exec_level(engine: &mut DecisionEngine, exec: &TimingStats)
    requires
        old(engine).consistent(),
    ensures
        final(engine).consistent(),
        only_appends(*old(engine), *final(engine)),
        findings_of(final(engine).history()) == findings_of(old(engine).history())
            + exec_level_findings(*exec),
        final(engine).contradictions() == old(engine).contradictions(),
        old(engine).undamped() ==> final(engine).undamped(),
{
    let t = DetectionSource::Timing;
    let em = exec.mean_floor();
    if exec.mean_exceeds(1_000_000) {
        let msg = with_number(
            "Code block execution extremely slow (Single-stepping?): mean=",
            em,
            " cycles",
        );
        engine.report(t, 60, msg.as_str());
    } else if exec.mean_exceeds(50_000) {
        let msg = with_number(
            "Code block execution slow (DBI/Heavy instrumentation?): mean=",
            em,
            " cycles",
        );
        engine.report(t, 30, msg.as_str());
    } else if exec.mean_exceeds(10_000) {
        let msg = with_number(
            "Code block execution elevated (Light instrumentation?): mean=",
            em,
            " cycles",
        );
        engine.report(t, 10, msg.as_str());
    }
    assert(findings_of(engine.history()) =~= findings_of(old(engine).history())
        + exec_level_findings(*exec));
}

fn report_exec_spread(engine: &mut DecisionEngine, exec: &TimingStats)
    requires
        old(engine).consistent(),
    ensures
        final(engine).consistent(),
        only_appends(*old(engine), *final(engine)),
        findings_of(final(engine).history()) == findings_of(old(engine).history())
            + exec_spread_findings(*exec),
        final(engine).contradictions() == old(engine).contradictions(),
        old(engine).undamped() ==> final(engine).undamped(),
{
    if exec.max as u128 > exec.min as u128 * 50 && exec.samples > 10 {
        let msg = with_number(
            "Execution timing bimodal (Sampling instrumentation?): max=",
            exec.max,
            " cycles",
        );
        engine.report_with_confidence(DetectionSource::Timing, 10, 600, msg.as_str());
    }
    assert(findings_of(engine.history()) =~= findings_of(old(engine).history())
        + exec_spread_findings(*exec));
}

} // verus!
