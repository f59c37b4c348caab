//! Instruction-level timing jitter: NOP, MOV and XOR bursts and a
//! branch-heavy loop that multiplies the cost of single-stepping.
use vstd::prelude::*;
use crate::detectors::stats::{JitterStats, mean_gt, cv_gt, sample_sum, scaled_gt};
use crate::engine::policy::{
    only_appends, lemma_only_appends_refl, lemma_only_appends_trans, DecisionEngine,
    DetectionSource, Finding, FULL_CONFIDENCE, finding, findings_of, only_if,
};
use crate::text::with_number;

verus! {

/// Number of discarded warm-up measurements before sampling.
pub const WARMUP_RUNS: usize = 50;

/// Take `count` measurements with `measure_fn`, after `WARMUP_RUNS`
/// discarded ones; each sample is a value the measurement may return.
pub fn collect_samples<F: Fn() -> u64>(measure_fn: F, count: usize) -> (r: Vec<u64>)
    requires
        measure_fn.requires(()),
    ensures
        r@.len() == count,
        forall|i: int| 0 <= i < count ==> measure_fn.ensures((), #[trigger] r@[i]),
{
    let mut w: usize = 0;
    while w < WARMUP_RUNS
        invariant
            measure_fn.requires(()),
        decreases WARMUP_RUNS - w,
    {
        let _ = measure_fn();
        w = w + 1;
    }
    let mut samples: Vec<u64> = Vec::with_capacity(count);
    let mut i: usize = 0;
    while i < count
        invariant
            i <= count,
            measure_fn.requires(()),
            samples@.len() == i,
            forall|j: int| 0 <= j < i ==> measure_fn.ensures((), #[trigger] samples@[j]),
        decreases count - i,
    {
        let x = measure_fn();
        samples.push(x);
        i = i + 1;
    }
    samples
}

/// Mean of the amplification loop: above 1,000,000 cycles single-stepping,
/// above 100,000 heavy instrumentation of conditional jumps.
pub open spec fn amplification_findings(amp: JitterStats) -> Seq<Finding> {
    let j = DetectionSource::Jitter;
    if mean_gt(amp.samples as int, amp.sum as int, 1_000_000) {
        seq![finding(j, 70, FULL_CONFIDENCE)]
    } else {
        only_if(
            mean_gt(amp.samples as int, amp.sum as int, 100_000),
            finding(j, 40, FULL_CONFIDENCE),
        )
    }
}

/// Mean of the NOP burst: above 10,000 cycles extreme, above 1000 elevated.
pub open spec fn nop_level_findings(nop: JitterStats) -> Seq<Finding> {
    let j = DetectionSource::Jitter;
    if mean_gt(nop.samples as int, nop.sum as int, 10_000) {
        seq![finding(j, 50, FULL_CONFIDENCE)]
    } else {
        only_if(mean_gt(nop.samples as int, nop.sum as int, 1000), finding(j, 20, FULL_CONFIDENCE))
    }
}

/// Bimodal NOP timings, then a bimodal amplification loop.
pub open spec fn bimodal_findings(nop: JitterStats, amp: JitterStats) -> Seq<Finding> {
    only_if(nop.bimodal, finding(DetectionSource::Jitter, 25, 700)) + only_if(
        amp.bimodal,
        finding(DetectionSource::Jitter, 30, 800),
    )
}

/// NOP timings with cv above 1 and a mean above 100 cycles.
pub open spec fn nop_variance_findings(nop: JitterStats) -> Seq<Finding> {
    only_if(
        cv_gt(nop.samples as int, nop.sum as int, nop.sum_sq as int, 1) && mean_gt(
            nop.samples as int,
            nop.sum as int,
            100,
        ),
        finding(DetectionSource::Jitter, 15, 500),
    )
}

/// `nop.mean / mov.mean` lies outside `[0.2, 5.0]`; the ratio counts as 1
/// when the MOV mean is 0.
pub open spec fn ratio_anomalous(nop: JitterStats, mov: JitterStats) -> bool {
    let nn = nop.samples as int;
    let mn = mov.samples as int;
    let ns = nop.sum as int;
    let ms = mov.sum as int;
    if mn == 0 || ms == 0 {
        false
    } else if nn == 0 {
        true
    } else {
        mn * ns > 5 * (ms * nn) || nn * ms > 5 * (ns * mn)
    }
}

/// What the jitter detector reports for the NOP, MOV and amplification statistics.
pub open spec fn jitter_findings(nop: JitterStats, mov: JitterStats, amp: JitterStats) -> Seq<
    Finding,
> {
    amplification_findings(amp) + nop_level_findings(nop) + bimodal_findings(nop, amp)
        + nop_variance_findings(nop) + only_if(
        ratio_anomalous(nop, mov),
        finding(DetectionSource::Jitter, 20, FULL_CONFIDENCE),
    )
}

/// Compute the statistics of the four sample sets (each slice is left sorted)
/// and report the jitter detector's findings. The statistics come back in the
/// order NOP, MOV, XOR, amplification.
pub fn check_instruction_jitter(
    engine: &mut DecisionEngine,
    nop_samples: &mut [u64],
    mov_samples: &mut [u64],
    xor_samples: &mut [u64],
    amp_samples: &mut [u64],
) -> (r: (JitterStats, JitterStats, JitterStats, JitterStats))
    requires
        old(engine).consistent(),
        sample_sum(old(nop_samples)@) <= u64::MAX,
        sample_sum(old(mov_samples)@) <= u64::MAX,
        sample_sum(old(xor_samples)@) <= u64::MAX,
        sample_sum(old(amp_samples)@) <= u64::MAX,
    ensures
        r.0.describes(old(nop_samples)@),
        r.1.describes(old(mov_samples)@),
        r.2.describes(old(xor_samples)@),
        r.3.describes(old(amp_samples)@),
        final(engine).consistent(),
        only_appends(*old(engine), *final(engine)),
        findings_of(final(engine).history()) == findings_of(old(engine).history())
            + jitter_findings(r.0, r.1, r.3),
        final(engine).contradictions() == old(engine).contradictions(),
        old(engine).undamped() ==> final(engine).undamped(),
{
    let nop = JitterStats::from_samples("NOP x100", nop_samples);
    let mov = JitterStats::from_samples("MOV x100", mov_samples);
    let xor = JitterStats::from_samples("XOR x100", xor_samples);
    let amp = JitterStats::from_samples("Amplification", amp_samples);
    report_jitter_stats(engine, &nop, &mov, &amp);
    (nop, mov, xor, amp)
}

/// Report the jitter detector's findings for computed statistics.
pub fn report_jitter_stats(
    engine: &mut DecisionEngine,
    nop: &JitterStats,
    mov: &JitterStats,
    amp: &JitterStats,
)
    requires
        old(engine).consistent(),
    ensures
        final(engine).consistent(),
        only_appends(*old(engine), *final(engine)),
        findings_of(final(engine).history()) == findings_of(old(engine).history())
            + jitter_findings(*nop, *mov, *amp),
        final(engine).contradictions() == old(engine).contradictions(),
        old(engine).undamped() ==> final(engine).undamped(),
{
    let ghost f0 = findings_of(engine.history());
    report_levels(engine, nop, amp);
    let ghost mid = *engine;
    let ghost f1 = findings_of(engine.history());
    report_shape(engine, nop, mov, amp);
    proof {
        lemma_only_appends_trans(*old(engine), mid, *engine);
        lemma_jitter_parts(f0, f1, findings_of(engine.history()), *nop, *mov, *amp);
    }
}

proof fn lemma_jitter_parts(
    f0: Seq<Finding>,
    f1: Seq<Finding>,
    f2: Seq<Finding>,
    nop: JitterStats,
    mov: JitterStats,
    amp: JitterStats,
)
    requires
        f1 == f0 + amplification_findings(amp) + nop_level_findings(nop),
        f2 == f1 + bimodal_findings(nop, amp) + nop_variance_findings(nop) + only_if(
            ratio_anomalous(nop, mov),
            finding(DetectionSource::Jitter, 20, FULL_CONFIDENCE),
        ),
    ensures
        f2 == f0 + jitter_findings(nop, mov, amp),
{
    assert(f2 =~= f0 + jitter_findings(nop, mov, amp));
}

fn report_shape(engine: &mut DecisionEngine, nop: &JitterStats, mov: &JitterStats, amp: &JitterStats)
    requires
        old(engine).consistent(),
    ensures
        final(engine).consistent(),
        only_appends(*old(engine), *final(engine)),
        findings_of(final(engine).history()) == findings_of(old(engine).history())
            + bimodal_findings(*nop, *amp) + nop_variance_findings(*nop) + only_if(
            ratio_anomalous(*nop, *mov),
            finding(DetectionSource::Jitter, 20, FULL_CONFIDENCE),
        ),
        final(engine).contradictions() == old(engine).contradictions(),
        old(engine).undamped() ==> final(engine).undamped(),
{
    let ghost f0 = findings_of(engine.history());
    report_bimodal(engine, nop, amp);
    let ghost mid = *engine;
    report_ratio_and_variance(engine, nop, mov);
    proof {
        lemma_only_appends_trans(*old(engine), mid, *engine);
        assert(findings_of(engine.history()) =~= f0 + bimodal_findings(*nop, *amp)
            + nop_variance_findings(*nop) + only_if(
            ratio_anomalous(*nop, *mov),
            finding(DetectionSource::Jitter, 20, FULL_CONFIDENCE),
        ));
    }
}

fn report_levels(engine: &mut DecisionEngine, nop: &JitterStats, amp: &JitterStats)
    requires
        old(engine).consistent(),
    ensures
        final(engine).consistent(),
        only_appends(*old(engine), *final(engine)),
        findings_of(final(engine).history()) == findings_of(old(engine).history())
            + amplification_findings(*amp) + nop_level_findings(*nop),
        final(engine).contradictions() == old(engine).contradictions(),
        old(engine).undamped() ==> final(engine).undamped(),
{
    let ghost f0 = findings_of(engine.history());
    report_amplification(engine, amp);
    let ghost mid = *engine;
    report_nop_level(engine, nop);
    proof {
        lemma_only_appends_trans(*old(engine), mid, *engine);
        assert(findings_of(engine.history()) =~= f0 + amplification_findings(*amp)
            + nop_level_findings(*nop));
    }
}

fn report_amplification(engine: &mut DecisionEngine, amp: &JitterStats)
    requires
        old(engine).consistent(),
    ensures
        final(engine).consistent(),
        only_appends(*old(engine), *final(engine)),
        findings_of(final(engine).history()) == findings_of(old(engine).history())
            + amplification_findings(*amp),
        final(engine).contradictions() == old(engine).contradictions(),
        old(engine).undamped() ==> final(engine).undamped(),
{
    proof {
        lemma_only_appends_refl(*engine);
    }
    let am = amp.mean_floor();
    if amp.mean_exceeds(1_000_000) {
        let msg = with_number(
            "Single-step amplification detected: mean=",
            am,
            " cycles (expected <2000)",
        );
        engine.report(DetectionSource::Jitter, 70, msg.as_str());
    } else if amp.mean_exceeds(100_000) {
        let msg = with_number("Heavy instrumentation on conditional jumps: mean=", am, " cycles");
        engine.report(DetectionSource::Jitter, 40, msg.as_str());
    }
    assert(findings_of(engine.history()) =~= findings_of(old(engine).history())
        + amplification_findings(*amp));
}

fn report_nop_level(engine: &mut DecisionEngine, nop: &JitterStats)
    requires
        old(engine).consistent(),
    ensures
        final(engine).consistent(),
        only_appends(*old(engine), *final(engine)),
        findings_of(final(engine).history()) == findings_of(old(engine).history())
            + nop_level_findings(*nop),
        final(engine).contradictions() == old(engine).contradictions(),
        old(engine).undamped() ==> final(engine).undamped(),
{
    proof {
        lemma_only_appends_refl(*engine);
    }
    let nm = nop.mean_floor();
    if nop.mean_exceeds(10_000) {
        let msg = with_number("NOP timing extremely elevated: mean=", nm, " cycles");
        engine.report(DetectionSource::Jitter, 50, msg.as_str());
    } else if nop.mean_exceeds(1000) {
        let msg = with_number("NOP timing elevated (possible VM/DBI): mean=", nm, " cycles");
        engine.report(DetectionSource::Jitter, 20, msg.as_str());
    }
    assert(findings_of(engine.history()) =~= findings_of(old(engine).history())
        + nop_level_findings(*nop));
}

fn report_bimodal(engine: &mut DecisionEngine, nop: &JitterStats, amp: &JitterStats)
    requires
        old(engine).consistent(),
    ensures
        final(engine).consistent(),
        only_appends(*old(engine), *final(engine)),
        findings_of(final(engine).history()) == findings_of(old(engine).history())
            + bimodal_findings(*nop, *amp),
        final(engine).contradictions() == old(engine).contradictions(),
        old(engine).undamped() ==> final(engine).undamped(),
{
    proof {
        lemma_only_appends_refl(*engine);
    }
    if nop.bimodal {
        engine.report_with_confidence(
            DetectionSource::Jitter,
            25,
            700,
            "NOP timing shows bimodal distribution (sampling instrumentation?)",
        );
    }
    let ghost mid = *engine;
    proof {
        lemma_only_appends_refl(mid);
    }
    if amp.bimodal {
        engine.report_with_confidence(
            DetectionSource::Jitter,
            30,
            800,
            "Amplification loop shows bimodal timing (intermittent single-step?)",
        );
    }
    proof {
        lemma_only_appends_trans(*old(engine), mid, *engine);
    }
    assert(findings_of(engine.history()) =~= findings_of(old(engine).history())
        + bimodal_findings(*nop, *amp));
}

fn report_ratio_and_variance(engine: &mut DecisionEngine, nop: &JitterStats, mov: &JitterStats)
    requires
        old(engine).consistent(),
    ensures
        final(engine).consistent(),
        only_appends(*old(engine), *final(engine)),
        findings_of(final(engine).history()) == findings_of(old(engine).history())
            + nop_variance_findings(*nop) + only_if(
            ratio_anomalous(*nop, *mov),
            finding(DetectionSource::Jitter, 20, FULL_CONFIDENCE),
        ),
        final(engine).contradictions() == old(engine).contradictions(),
        old(engine).undamped() ==> final(engine).undamped(),
{
    let ghost f0 = findings_of(engine.history());
    proof {
        lemma_only_appends_refl(*engine);
    }
    if nop.cv_exceeds(1) && nop.mean_exceeds(100) {
        let msg = with_number("High NOP timing variance: mean=", nop.mean_floor(), " cycles, cv above 1");
        engine.report_with_confidence(DetectionSource::Jitter, 15, 500, msg.as_str());
    }
    let ghost f1 = findings_of(engine.history());
    assert(f1 =~= f0 + nop_variance_findings(*nop));
    let ghost mid = *engine;
    proof {
        lemma_only_appends_refl(mid);
    }
    if ratio_is_anomalous(nop, mov) {
        engine.report(
            DetectionSource::Jitter,
            20,
            "NOP/MOV timing ratio outside [0.2, 5.0] (suggests instruction-specific trapping)",
        );
    }
    proof {
        lemma_only_appends_trans(*old(engine), mid, *engine);
    }
    assert(findings_of(engine.history()) =~= f0 + nop_variance_findings(*nop) + only_if(
        ratio_anomalous(*nop, *mov),
        finding(DetectionSource::Jitter, 20, FULL_CONFIDENCE),
    ));
}

/// `nop.mean / mov.mean` lies outside `[0.2, 5.0]` (see `ratio_anomalous`).
pub fn ratio_is_anomalous(nop: &JitterStats, mov: &JitterStats) -> (r: bool)
    ensures
        r == ratio_anomalous(*nop, *mov),
{
    if mov.samples == 0 || mov.sum == 0 {
        return false;
    }
    if nop.samples == 0 {
        return true;
    }
    assert(mov.sum * nop.samples <= u64::MAX as int * u64::MAX as int) by (nonlinear_arith)
        requires
            mov.sum <= u64::MAX,
            nop.samples <= u64::MAX,
    ;
    assert(nop.sum * mov.samples <= u64::MAX as int * u64::MAX as int) by (nonlinear_arith)
        requires
            nop.sum <= u64::MAX,
            mov.samples <= u64::MAX,
    ;
    let too_high = scaled_gt(
        mov.samples as u64,
        nop.sum as u128,
        5,
        mov.sum as u128 * nop.samples as u128,
    );
    let too_low = scaled_gt(
        nop.samples as u64,
        mov.sum as u128,
        5,
        nop.sum as u128 * mov.samples as u128,
    );
    too_high || too_low
}

} // verus!
