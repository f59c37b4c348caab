//! Evidence aggregation, contradiction analysis and verdicts.
//!
//! Confidence is carried in thousandths: `FULL_CONFIDENCE` (1000) stands for
//! certainty, 500 for a coin flip. The effective contribution of a report is
//! `floor(weight * confidence / 1000)`.
use vstd::prelude::*;
use vstd::seq_lib::{commutative_foldl, lemma_fold_left_permutation};
use crate::text::{decimal, with_number};

verus! {

/// Confidence of a report that is certain.
pub const FULL_CONFIDENCE: u32 = 1000;

/// Score added by every recorded contradiction.
pub const CONTRADICTION_PENALTY: u32 = 30;

/// Number of detection sources.
pub const SOURCE_COUNT: usize = 9;

/// Final classification of the environment, ordered by severity.
#[derive(Debug, Clone, Copy, PartialEq, Eq, Structural)]
pub enum Verdict {
    Clean,
    Suspicious,
    Instrumented,
    /// The environment is actively lying (contradictory evidence).
    Deceptive,
}

impl Verdict {
    /// Position of the verdict in the severity order.
    pub open spec fn severity(self) -> nat {
        match self {
            Verdict::Clean => 0,
            Verdict::Suspicious => 1,
            Verdict::Instrumented => 2,
            Verdict::Deceptive => 3,
        }
    }

    /// The verdict's name, as shown in summaries.
    pub fn name(self) -> (r: &'static str)
        ensures
            r@ == self.spec_name(),
    {
        match self {
            Verdict::Clean => "Clean",
            Verdict::Suspicious => "Suspicious",
            Verdict::Instrumented => "Instrumented",
            Verdict::Deceptive => "Deceptive",
        }
    }

    pub open spec fn spec_name(self) -> Seq<char> {
        match self {
            Verdict::Clean => "Clean"@,
            Verdict::Suspicious => "Suspicious"@,
            Verdict::Instrumented => "Instrumented"@,
            Verdict::Deceptive => "Deceptive"@,
        }
    }
}

/// Origin of a piece of evidence.
#[derive(Debug, Clone, Copy, PartialEq, Eq, Hash, Structural)]
pub enum DetectionSource {
    Timing,
    Int3,
    TrapFlag,
    Ptrace,
    /// Debug-register (DR0-DR7) activity.
    HardwareBreakpoint,
    /// Instruction-level timing jitter.
    Jitter,
    /// Record-and-replay systems.
    RecordReplay,
    /// Internal versus external observation mismatch.
    EbpfComparison,
    /// Cross-technique contradiction.
    Correlation,
}

impl DetectionSource {
    /// Slot of the source in the per-source table.
    pub open spec fn spec_slot(self) -> int {
        match self {
            DetectionSource::Timing => 0,
            DetectionSource::Int3 => 1,
            DetectionSource::TrapFlag => 2,
            DetectionSource::Ptrace => 3,
            DetectionSource::HardwareBreakpoint => 4,
            DetectionSource::Jitter => 5,
            DetectionSource::RecordReplay => 6,
            DetectionSource::EbpfComparison => 7,
            DetectionSource::Correlation => 8,
        }
    }

    pub fn slot(self) -> (r: usize)
        ensures
            r as int == self.spec_slot(),
            r < SOURCE_COUNT,
    {
        match self {
            DetectionSource::Timing => 0,
            DetectionSource::Int3 => 1,
            DetectionSource::TrapFlag => 2,
            DetectionSource::Ptrace => 3,
            DetectionSource::HardwareBreakpoint => 4,
            DetectionSource::Jitter => 5,
            DetectionSource::RecordReplay => 6,
            DetectionSource::EbpfComparison => 7,
            DetectionSource::Correlation => 8,
        }
    }

    /// The source that occupies a slot of the per-source table.
    pub open spec fn spec_from_slot(i: int) -> DetectionSource {
        if i == 0 {
            DetectionSource::Timing
        } else if i == 1 {
            DetectionSource::Int3
        } else if i == 2 {
            DetectionSource::TrapFlag
        } else if i == 3 {
            DetectionSource::Ptrace
        } else if i == 4 {
            DetectionSource::HardwareBreakpoint
        } else if i == 5 {
            DetectionSource::Jitter
        } else if i == 6 {
            DetectionSource::RecordReplay
        } else if i == 7 {
            DetectionSource::EbpfComparison
        } else {
            DetectionSource::Correlation
        }
    }

    pub fn from_slot(i: usize) -> (r: DetectionSource)
        requires
            i < SOURCE_COUNT,
        ensures
            r == Self::spec_from_slot(i as int),
            r.spec_slot() == i,
    {
        if i == 0 {
            DetectionSource::Timing
        } else if i == 1 {
            DetectionSource::Int3
        } else if i == 2 {
            DetectionSource::TrapFlag
        } else if i == 3 {
            DetectionSource::Ptrace
        } else if i == 4 {
            DetectionSource::HardwareBreakpoint
        } else if i == 5 {
            DetectionSource::Jitter
        } else if i == 6 {
            DetectionSource::RecordReplay
        } else if i == 7 {
            DetectionSource::EbpfComparison
        } else {
            DetectionSource::Correlation
        }
    }

    /// The source's name, as shown in summaries.
    pub fn name(self) -> (r: &'static str)
        ensures
            r@ == self.spec_name(),
    {
        match self {
            DetectionSource::Timing => "Timing",
            DetectionSource::Int3 => "Int3",
            DetectionSource::TrapFlag => "TrapFlag",
            DetectionSource::Ptrace => "Ptrace",
            DetectionSource::HardwareBreakpoint => "HardwareBreakpoint",
            DetectionSource::Jitter => "Jitter",
            DetectionSource::RecordReplay => "RecordReplay",
            DetectionSource::EbpfComparison => "EbpfComparison",
            DetectionSource::Correlation => "Correlation",
        }
    }

    pub open spec fn spec_name(self) -> Seq<char> {
        match self {
            DetectionSource::Timing => "Timing"@,
            DetectionSource::Int3 => "Int3"@,
            DetectionSource::TrapFlag => "TrapFlag"@,
            DetectionSource::Ptrace => "Ptrace"@,
            DetectionSource::HardwareBreakpoint => "HardwareBreakpoint"@,
            DetectionSource::Jitter => "Jitter"@,
            DetectionSource::RecordReplay => "RecordReplay"@,
            DetectionSource::EbpfComparison => "EbpfComparison"@,
            DetectionSource::Correlation => "Correlation"@,
        }
    }
}

/// `floor(weight * confidence)`, with confidence in thousandths.
pub open spec fn effective_weight(weight: u32, confidence: u32) -> nat {
    (weight as int * confidence as int / FULL_CONFIDENCE as int) as nat
}

/// The value of `x` in a `u32` that saturates at its maximum.
pub open spec fn saturate(x: int) -> u32 {
    if x > u32::MAX {
        u32::MAX
    } else {
        x as u32
    }
}

/// What a detector asks the engine to record, without the prose.
#[derive(Debug, Clone, Copy, PartialEq, Eq, Structural)]
pub struct Finding {
    pub source: DetectionSource,
    pub weight: u32,
    /// In thousandths.
    pub confidence: u32,
}

/// One weighted observation by a detector.
#[derive(Debug, Clone)]
pub struct Evidence {
    pub source: DetectionSource,
    pub weight: u32,
    /// In thousandths (`FULL_CONFIDENCE` is certainty).
    pub confidence: u32,
    pub details: String,
}

impl Evidence {
    /// What the evidence adds to the score.
    pub open spec fn contribution(self) -> nat {
        effective_weight(self.weight, self.confidence)
    }

    pub open spec fn finding(self) -> Finding {
        Finding { source: self.source, weight: self.weight, confidence: self.confidence }
    }

    /// What the evidence adds to the score, saturated to `u32`.
    pub fn effective_weight(&self) -> (r: u32)
        ensures
            r == saturate(self.contribution() as int),
    {
        let w = self.weight as u64;
        let c = self.confidence as u64;
        assert(w * c <= u32::MAX as int * u32::MAX as int) by (nonlinear_arith)
            requires
                c <= u32::MAX,
                w <= u32::MAX,
        ;
        let e = (w * c) / 1000;
        if e > u32::MAX as u64 {
            u32::MAX
        } else {
            e as u32
        }
    }
}

/// Record of two sources whose findings conflict.
#[derive(Debug, Clone)]
pub struct Contradiction {
    pub source_a: DetectionSource,
    pub source_b: DetectionSource,
    pub description: String,
}


/// Sum of the contributions of a sequence of evidence.
pub open spec fn total_contribution(h: Seq<Evidence>) -> nat {
    h.fold_left(0nat, |acc: nat, e: Evidence| acc + e.contribution())
}

/// Sum of the contributions of the evidence that came from `s`.
pub open spec fn source_contribution(h: Seq<Evidence>, s: DetectionSource) -> nat {
    h.fold_left(
        0nat,
        |acc: nat, e: Evidence|
            if e.source == s {
                acc + e.contribution()
            } else {
                acc
            },
    )
}

/// A finding of `weight` from `source` with the given confidence (thousandths).
pub open spec fn finding(source: DetectionSource, weight: u32, confidence: u32) -> Finding {
    Finding { source, weight, confidence }
}

/// `f` alone when `c` holds, nothing otherwise.
pub open spec fn only_if(c: bool, f: Finding) -> Seq<Finding> {
    if c {
        seq![f]
    } else {
        Seq::empty()
    }
}

/// The findings of a sequence of evidence, in order.
pub open spec fn findings_of(h: Seq<Evidence>) -> Seq<Finding> {
    h.map_values(|e: Evidence| e.finding())
}

/// Some evidence came from `s`.
pub open spec fn reported(h: Seq<Evidence>, s: DetectionSource) -> bool {
    exists|i: int| 0 <= i < h.len() && #[trigger] h[i].source == s
}

/// One summary line per contradiction: `  A vs B: description`.
pub open spec fn contradiction_lines(c: Seq<Contradiction>) -> Seq<char>
    decreases c.len(),
{
    if c.len() == 0 {
        Seq::empty()
    } else {
        contradiction_lines(c.drop_last()) + "  "@ + c.last().source_a.spec_name() + " vs "@
            + c.last().source_b.spec_name() + ": "@ + c.last().description@ + "\n"@
    }
}

/// Some evidence from `s` contributed a positive amount.
pub open spec fn has_detection(h: Seq<Evidence>, s: DetectionSource) -> bool {
    exists|i: int| 0 <= i < h.len() && #[trigger] h[i].source == s && h[i].contribution() > 0
}

/// The verdict for a score when `contradictions` contradictions were recorded.
pub open spec fn verdict_for(score: int, contradictions: int) -> Verdict {
    if contradictions > 0 {
        Verdict::Deceptive
    } else if score >= 90 {
        Verdict::Deceptive
    } else if score >= 50 {
        Verdict::Instrumented
    } else if score >= 20 {
        Verdict::Suspicious
    } else {
        Verdict::Clean
    }
}

/// The built-in correlation rule: heavy timing anomalies (Timing and Jitter
/// together over 40) with no evidence at all from the debug registers or
/// from ptrace to explain them.
pub open spec fn timing_without_tracer(h: Seq<Evidence>) -> bool {
    &&& source_contribution(h, DetectionSource::Timing) + source_contribution(
        h,
        DetectionSource::Jitter,
    ) > 40
    &&& !reported(h, DetectionSource::HardwareBreakpoint)
    &&& !reported(h, DetectionSource::Ptrace)
}

/// The score after damping by `factor` thousandths; factors outside `(0, 1000)` leave it.
pub open spec fn damped(score: u32, factor: u32) -> u32 {
    if 0 < factor < FULL_CONFIDENCE {
        (score as int * factor as int / FULL_CONFIDENCE as int) as u32
    } else {
        score
    }
}

/// Aggregates evidence from the detectors into a score and a verdict.
pub struct DecisionEngine {
    score: u32,
    history: Vec<Evidence>,
    contradictions: Vec<Contradiction>,
    /// Per-source totals, indexed by `DetectionSource::slot`.
    source_weights: Vec<u32>,
    /// Environmental damping was applied (it applies at most once).
    adjusted: bool,
}

/// Sum of the contributions of `x + y` is the sum of the two sums.
pub proof fn lemma_total_concat(x: Seq<Evidence>, y: Seq<Evidence>)
    ensures
        total_contribution(x + y) == total_contribution(x) + total_contribution(y),
    decreases y.len(),
{
    if y.len() == 0 {
        assert(x + y =~= x);
    } else {
        lemma_total_concat(x, y.drop_last());
        assert((x + y).drop_last() =~= x + y.drop_last());
    }
}

/// `new` is `old` with evidence appended and nothing else changed: the earlier
/// evidence, the contradictions and the damping state are kept, the
/// bookkeeping stays consistent, and the score grew (saturating) by the
/// contributions of the new evidence.
pub open spec fn only_appends(old: DecisionEngine, new: DecisionEngine) -> bool {
    &&& new.consistent()
    &&& old.history().len() <= new.history().len()
    &&& new.history().subrange(0, old.history().len() as int) == old.history()
    &&& new.contradictions() == old.contradictions()
    &&& new.is_adjusted() == old.is_adjusted()
    &&& new.score() == saturate(
        old.score() + total_contribution(new.history().skip(old.history().len() as int)),
    )
    &&& (old.undamped() ==> new.undamped())
}

/// Appending nothing.
pub broadcast proof fn lemma_only_appends_refl(e: DecisionEngine)
    requires
        e.consistent(),
    ensures
        #[trigger] only_appends(e, e),
{
    assert(e.history().subrange(0, e.history().len() as int) =~= e.history());
    assert(e.history().skip(e.history().len() as int) =~= Seq::<Evidence>::empty());
}

/// Appending in two steps is appending.
pub broadcast proof fn lemma_only_appends_trans(a: DecisionEngine, b: DecisionEngine, c: DecisionEngine)
    requires
        #[trigger] only_appends(a, b),
        #[trigger] only_appends(b, c),
    ensures
        only_appends(a, c),
{
    let la = a.history().len() as int;
    let lb = b.history().len() as int;
    let hc = c.history();
    assert(hc.subrange(0, la) =~= hc.subrange(0, lb).subrange(0, la));
    let x = hc.subrange(la, lb);
    let y = hc.skip(lb);
    assert(b.history().skip(la) =~= x);
    assert(hc.skip(la) =~= x + y);
    lemma_total_concat(x, y);
}

pub broadcast group group_only_appends {
    lemma_only_appends_refl,
    lemma_only_appends_trans,
}

proof fn lemma_fold_push(h: Seq<Evidence>, e: Evidence, s: DetectionSource)
    ensures
        total_contribution(h.push(e)) == total_contribution(h) + e.contribution(),
        source_contribution(h.push(e), s) == source_contribution(h, s) + if e.source == s {
            e.contribution()
        } else {
            0
        },
        findings_of(h.push(e)) == findings_of(h).push(e.finding()),
{
    assert(h.push(e).drop_last() =~= h);
    assert(findings_of(h.push(e)) =~= findings_of(h).push(e.finding()));
}

impl DecisionEngine {
    /// Current score.
    pub closed spec fn score(self) -> u32 {
        self.score
    }

    /// Evidence recorded so far, in the order of the reports.
    pub closed spec fn history(self) -> Seq<Evidence> {
        self.history@
    }

    /// Contradictions recorded so far, in order.
    pub closed spec fn contradictions(self) -> Seq<Contradiction> {
        self.contradictions@
    }

    /// The stored per-source total of `s`.
    pub closed spec fn source_total(self, s: DetectionSource) -> u32 {
        self.source_weights@[s.spec_slot()]
    }

    /// Environmental damping has been applied.
    pub closed spec fn is_adjusted(self) -> bool {
        self.adjusted
    }

    /// The per-source table has one slot per source.
    pub closed spec fn table_ok(self) -> bool {
        self.source_weights@.len() == SOURCE_COUNT
    }

    /// The engine's bookkeeping holds: each per-source total is the (saturated)
    /// sum of the contributions of that source's evidence.
    pub open spec fn consistent(self) -> bool {
        &&& self.table_ok()
        &&& forall|s: DetectionSource| #[trigger]
            self.source_total(s) == saturate(source_contribution(self.history(), s) as int)
    }

    /// The score is the (saturated) sum of all contributions plus the
    /// contradiction penalties: true until environmental damping is applied.
    pub open spec fn undamped(self) -> bool {
        self.score() == saturate(
            total_contribution(self.history()) + CONTRADICTION_PENALTY * self.contradictions().len(),
        )
    }

    /// An engine with no evidence, no contradictions and a zero score.
    pub fn new() -> (r: DecisionEngine)
        ensures
            r.consistent(),
            r.undamped(),
            r.score() == 0,
            r.history() == Seq::<Evidence>::empty(),
            r.contradictions() == Seq::<Contradiction>::empty(),
            !r.is_adjusted(),
    {
        let r = DecisionEngine {
            score: 0,
            history: Vec::new(),
            contradictions: Vec::new(),
            source_weights: vec![0u32; SOURCE_COUNT],
            adjusted: false,
        };
        assert forall|s: DetectionSource| #[trigger]
            r.source_total(s) == saturate(source_contribution(r.history(), s) as int) by {
            assert(r.source_weights@[s.spec_slot()] == 0);
        }
        r
    }

    /// Record a report that is certain; same as `report_with_confidence`
    /// with `FULL_CONFIDENCE`.
    pub fn report(&mut self, source: DetectionSource, weight: u32, details: &str)
        requires
            old(self).consistent(),
        ensures
            final(self).consistent(),
            final(self).history().len() == old(self).history().len() + 1,
            final(self).history().drop_last() == old(self).history(),
            final(self).history().last().finding() == (Finding {
                source,
                weight,
                confidence: FULL_CONFIDENCE,
            }),
            final(self).history().last().details@ == details@,
            findings_of(final(self).history()) == findings_of(old(self).history()).push(
                (Finding { source, weight, confidence: FULL_CONFIDENCE }),
            ),
            final(self).score() == saturate(old(self).score() + weight),
            final(self).contradictions() == old(self).contradictions(),
            old(self).undamped() ==> final(self).undamped(),
            only_appends(*old(self), *final(self)),
    {
        self.report_with_confidence(source, weight, FULL_CONFIDENCE, details);
        assert(effective_weight(weight, FULL_CONFIDENCE) == weight);
    }

    /// Record a report: adds `floor(weight * confidence / 1000)` to the score
    /// (saturating) and to the source's total, and appends the evidence.
    pub fn report_with_confidence(
        &mut self,
        source: DetectionSource,
        weight: u32,
        confidence: u32,
        details: &str,
    )
        requires
            old(self).consistent(),
            confidence <= FULL_CONFIDENCE,
        ensures
            final(self).consistent(),
            final(self).history().len() == old(self).history().len() + 1,
            final(self).history().drop_last() == old(self).history(),
            final(self).history().last().finding() == (Finding { source, weight, confidence }),
            final(self).history().last().details@ == details@,
            findings_of(final(self).history()) == findings_of(old(self).history()).push(
                (Finding { source, weight, confidence }),
            ),
            final(self).score() == saturate(
                old(self).score() + effective_weight(weight, confidence),
            ),
            final(self).contradictions() == old(self).contradictions(),
            old(self).undamped() ==> final(self).undamped(),
            only_appends(*old(self), *final(self)),
    {
        let w = weight as u64;
        let c = confidence as u64;
        assert(w * c <= w * 1000) by (nonlinear_arith)
            requires
                c <= 1000,
        ;
        assert(w * c / 1000 <= w) by (nonlinear_arith)
            requires
                w * c <= w * 1000,
        ;
        let adjusted = ((w * c) / 1000) as u32;
        assert(adjusted == effective_weight(weight, confidence));
        let ghost old_h = self.history@;
        self.score = self.score.saturating_add(adjusted);
        let slot = source.slot();
        let prev = self.source_weights[slot];
        self.source_weights.set(slot, prev.saturating_add(adjusted));
        let e = Evidence { source, weight, confidence, details: details.to_owned() };
        let ghost ge = e;
        self.history.push(e);
        proof {
            assert(self.history@ == old_h.push(ge));
            lemma_fold_push(old_h, ge, source);
            assert forall|s: DetectionSource| #[trigger]
                self.source_total(s) == saturate(source_contribution(self.history(), s) as int) by {
                lemma_fold_push(old_h, ge, s);
                assert(old(self).source_total(s) == saturate(
                    source_contribution(old(self).history(), s) as int,
                ));
                if s != source {
                    assert(s.spec_slot() != source.spec_slot());
                    assert(self.source_total(s) == old(self).source_total(s));
                } else {
                    assert(self.source_total(s) == prev.saturating_add(adjusted));
                }
            }
            assert(self.history@.drop_last() =~= old_h);
            assert(self.history@.subrange(0, old_h.len() as int) =~= old_h);
            assert(self.history@.skip(old_h.len() as int) =~= seq![ge]);
            assert(total_contribution(seq![ge]) == ge.contribution()) by {
                lemma_fold_push(Seq::<Evidence>::empty(), ge, source);
                assert(Seq::<Evidence>::empty().push(ge) =~= seq![ge]);
            }
        }
    }

    /// Record a conflict between two sources: adds `CONTRADICTION_PENALTY`
    /// to the score (saturating).
    pub fn record_contradiction(
        &mut self,
        source_a: DetectionSource,
        source_b: DetectionSource,
        description: &str,
    )
        requires
            old(self).consistent(),
        ensures
            final(self).consistent(),
            final(self).history() == old(self).history(),
            final(self).contradictions().len() == old(self).contradictions().len() + 1,
            final(self).contradictions().drop_last() == old(self).contradictions(),
            final(self).contradictions().last().source_a == source_a,
            final(self).contradictions().last().source_b == source_b,
            final(self).contradictions().last().description@ == description@,
            final(self).score() == saturate(old(self).score() + CONTRADICTION_PENALTY),
            final(self).is_adjusted() == old(self).is_adjusted(),
            old(self).undamped() ==> final(self).undamped(),
    {
        let c = Contradiction { source_a, source_b, description: description.to_owned() };
        self.contradictions.push(c);
        self.score = self.score.saturating_add(CONTRADICTION_PENALTY);
        proof {
            assert(self.contradictions@.drop_last() =~= old(self).contradictions@);
            assert forall|s: DetectionSource| #[trigger]
                self.source_total(s) == saturate(source_contribution(self.history(), s) as int) by {
                assert(old(self).source_total(s) == self.source_total(s));
            }
        }
    }

    /// Some evidence from `source` contributed a positive amount.
    pub fn has_detection(&self, source: DetectionSource) -> (r: bool)
        ensures
            r == has_detection(self.history(), source),
    {
        let mut i: usize = 0;
        while i < self.history.len()
            invariant
                i <= self.history@.len(),
                forall|j: int|
                    0 <= j < i ==> !(#[trigger] self.history@[j].source == source
                        && self.history@[j].contribution() > 0),
            decreases self.history@.len() - i,
        {
            let e = &self.history[i];
            if e.source == source && e.effective_weight() > 0 {
                assert(self.history@[i as int].contribution() > 0);
                return true;
            }
            i += 1;
        }
        false
    }

    /// The stored total of `source`'s contributions.
    pub fn get_source_weight(&self, source: DetectionSource) -> (r: u32)
        requires
            self.consistent(),
        ensures
            r == self.source_total(source),
            r == saturate(source_contribution(self.history(), source) as int),
    {
        let r = self.source_weights[source.slot()];
        assert(r == self.source_total(source));
        r
    }

    /// Apply the built-in correlation rule once all detectors have run: record a
    /// (Timing, Ptrace) contradiction when `timing_without_tracer` holds.
    pub fn analyze_contradictions(&mut self)
        requires
            old(self).consistent(),
        ensures
            final(self).consistent(),
            final(self).history() == old(self).history(),
            timing_without_tracer(old(self).history()) ==> {
                &&& final(self).contradictions().len() == old(self).contradictions().len() + 1
                &&& final(self).contradictions().drop_last() == old(self).contradictions()
                &&& final(self).contradictions().last().source_a == DetectionSource::Timing
                &&& final(self).contradictions().last().source_b == DetectionSource::Ptrace
                &&& final(self).score() == saturate(old(self).score() + CONTRADICTION_PENALTY)
            },
            !timing_without_tracer(old(self).history()) ==> *final(self) == *old(self),
            old(self).undamped() ==> final(self).undamped(),
    {
        let has_hw_bp = self.has_evidence_from(DetectionSource::HardwareBreakpoint);
        let has_ptrace = self.has_evidence_from(DetectionSource::Ptrace);
        let timing_weight = self.get_source_weight(DetectionSource::Timing) as u64
            + self.get_source_weight(DetectionSource::Jitter) as u64;
        if timing_weight > 40 && !has_hw_bp && !has_ptrace {
            self.record_contradiction(
                DetectionSource::Timing,
                DetectionSource::Ptrace,
                "Heavy timing anomaly but no tracer detected - possible ptrace hiding",
            );
        }
    }

    /// Decide: `Deceptive` once any contradiction is recorded, otherwise
    /// by score (90, 50 and 20 are the thresholds).
    pub fn decide(&self) -> (r: Verdict)
        ensures
            r == verdict_for(self.score() as int, self.contradictions().len() as int),
    {
        if self.contradictions.len() > 0 {
            return Verdict::Deceptive;
        }
        if self.score >= 90 {
            Verdict::Deceptive
        } else if self.score >= 50 {
            Verdict::Instrumented
        } else if self.score >= 20 {
            Verdict::Suspicious
        } else {
            Verdict::Clean
        }
    }

    pub fn get_score(&self) -> (r: u32)
        ensures
            r == self.score(),
    {
        self.score
    }

    /// Damp the score for a noisy environment, at most once: with
    /// `0 < factor < 1000` (thousandths) the score becomes
    /// `floor(score * factor / 1000)`; any other factor, or an engine that was
    /// damped already, leaves it.
    pub fn apply_environmental_adjustment(&mut self, factor: u32)
        requires
            old(self).consistent(),
        ensures
            final(self).consistent(),
            final(self).score() == if old(self).is_adjusted() {
                old(self).score()
            } else {
                damped(old(self).score(), factor)
            },
            final(self).is_adjusted() == (old(self).is_adjusted() || 0 < factor < FULL_CONFIDENCE),
            final(self).history() == old(self).history(),
            final(self).contradictions() == old(self).contradictions(),
    {
        if !self.adjusted && factor < FULL_CONFIDENCE && factor > 0 {
            self.adjusted = true;
            let s = self.score as u64;
            let f = factor as u64;
            assert(s * f <= s * 1000) by (nonlinear_arith)
                requires
                    f <= 1000,
            ;
            assert(s * f / 1000 <= s) by (nonlinear_arith)
                requires
                    s * f <= s * 1000,
            ;
            self.score = ((s * f) / 1000) as u32;
        }
        proof {
            assert forall|s: DetectionSource| #[trigger]
                self.source_total(s) == saturate(source_contribution(self.history(), s) as int) by {
                assert(old(self).source_total(s) == self.source_total(s));
            }
        }
    }

    /// Some evidence came from `source`, whatever its weight.
    pub fn has_evidence_from(&self, source: DetectionSource) -> (r: bool)
        ensures
            r == reported(self.history(), source),
    {
        let mut i: usize = 0;
        while i < self.history.len()
            invariant
                i <= self.history@.len(),
                forall|j: int| 0 <= j < i ==> #[trigger] self.history@[j].source != source,
            decreases self.history@.len() - i,
        {
            if self.history[i].source == source {
                return true;
            }
            i += 1;
        }
        false
    }

    /// The per-source lines of the summary, for the first `k` slots.
    pub open spec fn source_lines(self, k: int) -> Seq<char>
        decreases k,
    {
        if k <= 0 {
            Seq::empty()
        } else {
            let s = DetectionSource::spec_from_slot(k - 1);
            self.source_lines(k - 1) + if reported(self.history(), s) {
                "  "@ + s.spec_name() + ": "@ + decimal(self.source_total(s) as nat) + "\n"@
            } else {
                Seq::empty()
            }
        }
    }

    /// A summary for logs: score and verdict, the total of each source that
    /// reported (in slot order), then the contradictions, if any.
    pub open spec fn summary_text(self) -> Seq<char> {
        "Score: "@ + decimal(self.score() as nat) + " | Result: "@ + verdict_for(
            self.score() as int,
            self.contradictions().len() as int,
        ).spec_name() + "\nEvidence by source:\n"@ + self.source_lines(SOURCE_COUNT as int) + if self.contradictions().len() > 0 {
            "Contradictions:\n"@ + contradiction_lines(self.contradictions())
        } else {
            Seq::empty()
        }
    }

    /// See `summary_text`.
    pub fn summary(&self) -> (r: String)
        requires
            self.consistent(),
        ensures
            r@ == self.summary_text(),
    {
        let mut s = with_number("Score: ", self.score as u64, " | Result: ");
        s.append(self.decide().name());
        s.append("\nEvidence by source:\n");
        let ghost head = s@;
        let mut k: usize = 0;
        while k < SOURCE_COUNT
            invariant
                k <= SOURCE_COUNT,
                self.consistent(),
                s@ == head + self.source_lines(k as int),
            decreases SOURCE_COUNT - k,
        {
            let src = DetectionSource::from_slot(k);
            if self.has_evidence_from(src) {
                s.append("  ");
                s.append(src.name());
                let total = with_number(": ", self.get_source_weight(src) as u64, "\n");
                s.append(total.as_str());
            }
            k += 1;
        }
        let ghost mid = s@;
        if self.contradictions.len() > 0 {
            s.append("Contradictions:\n");
            let ghost head2 = s@;
            let mut i: usize = 0;
            assert(self.contradictions@.take(0) =~= Seq::<Contradiction>::empty());
            while i < self.contradictions.len()
                invariant
                    i <= self.contradictions@.len(),
                    s@ == head2 + contradiction_lines(self.contradictions@.take(i as int)),
                decreases self.contradictions@.len() - i,
            {
                let c = &self.contradictions[i];
                s.append("  ");
                s.append(c.source_a.name());
                s.append(" vs ");
                s.append(c.source_b.name());
                s.append(": ");
                s.append(c.description.as_str());
                s.append("\n");
                proof {
                    assert(self.contradictions@.take(i + 1).drop_last() =~= self.contradictions@.take(i as int));
                }
                i += 1;
            }
            assert(self.contradictions@.take(i as int) =~= self.contradictions@);
        }
        assert(s@ =~= self.summary_text());
        s
    }

    /// Evidence recorded so far, in report order.
    pub fn get_history(&self) -> (r: &[Evidence])
        ensures
            r@ == self.history(),
    {
        self.history.as_slice()
    }

    /// Contradictions recorded so far, in order.
    pub fn get_contradictions(&self) -> (r: &[Contradiction])
        ensures
            r@ == self.contradictions(),
    {
        self.contradictions.as_slice()
    }
}

impl Default for DecisionEngine {
    /// Same as `DecisionEngine::new`.
    fn default() -> (r: DecisionEngine)
        ensures
            r.consistent(),
            r.undamped(),
            r.score() == 0,
            r.history() == Seq::<Evidence>::empty(),
            r.contradictions() == Seq::<Contradiction>::empty(),
            !r.is_adjusted(),
    {
        DecisionEngine::new()
    }
}

/// The order of reports does not matter: two evidence logs that hold the same
/// evidence (as multisets) give the same total, the same per-source totals,
/// and, with the same number of contradictions, the same undamped score and
/// the same verdict.
pub proof fn lemma_report_order_independent(a: Seq<Evidence>, b: Seq<Evidence>, contradictions: nat)
    requires
        a.to_multiset() == b.to_multiset(),
    ensures
        total_contribution(a) == total_contribution(b),
        forall|s: DetectionSource| #[trigger]
            source_contribution(a, s) == source_contribution(b, s),
        saturate(total_contribution(a) + CONTRADICTION_PENALTY * contradictions) == saturate(
            total_contribution(b) + CONTRADICTION_PENALTY * contradictions,
        ),
        verdict_for(
            saturate(total_contribution(a) + CONTRADICTION_PENALTY * contradictions) as int,
            contradictions as int,
        ) == verdict_for(
            saturate(total_contribution(b) + CONTRADICTION_PENALTY * contradictions) as int,
            contradictions as int,
        ),
{
    let f = |acc: nat, e: Evidence| acc + e.contribution();
    assert(commutative_foldl(f));
    lemma_fold_left_permutation(a, b, f, 0nat);
    assert forall|s: DetectionSource| #[trigger]
        source_contribution(a, s) == source_contribution(b, s) by {
        let g = |acc: nat, e: Evidence|
            if e.source == s {
                acc + e.contribution()
            } else {
                acc
            };
        assert(commutative_foldl(g));
        lemma_fold_left_permutation(a, b, g, 0nat);
    }
}

/// Two engines whose reports were the same up to order (their evidence logs
/// are permutations of each other), with as many contradictions and no
/// damping, have the same score, the same per-source totals and the same verdict.
pub proof fn lemma_permuted_reports_agree(a: DecisionEngine, b: DecisionEngine)
    requires
        a.consistent(),
        b.consistent(),
        a.undamped(),
        b.undamped(),
        a.history().to_multiset() == b.history().to_multiset(),
        a.contradictions().len() == b.contradictions().len(),
    ensures
        a.score() == b.score(),
        forall|s: DetectionSource| #[trigger] a.source_total(s) == b.source_total(s),
        verdict_for(a.score() as int, a.contradictions().len() as int) == verdict_for(
            b.score() as int,
            b.contradictions().len() as int,
        ),
{
    lemma_report_order_independent(a.history(), b.history(), a.contradictions().len());
    assert forall|s: DetectionSource| #[trigger] a.source_total(s) == b.source_total(s) by {
        assert(source_contribution(a.history(), s) == source_contribution(b.history(), s));
    }
}

/// Once a contradiction is recorded the verdict is `Deceptive`, whatever the score.
pub proof fn lemma_contradiction_forces_deceptive(score: int, contradictions: int)
    requires
        contradictions > 0,
    ensures
        verdict_for(score, contradictions) == Verdict::Deceptive,
{
}

/// Damping by a factor strictly between 0 and 1000 thousandths lowers a
/// positive score and keeps a zero score; any other factor changes nothing.
pub proof fn lemma_damping_lowers_score(score: u32, factor: u32)
    ensures
        0 < factor < FULL_CONFIDENCE && score > 0 ==> damped(score, factor) < score,
        score == 0 ==> damped(score, factor) == 0,
        factor == 0 || factor >= FULL_CONFIDENCE ==> damped(score, factor) == score,
{
    if 0 < factor < FULL_CONFIDENCE {
        let s = score as int;
        let f = factor as int;
        assert(s * f <= s * 999) by (nonlinear_arith)
            requires
                0 <= s,
                f <= 999,
        ;
        assert(s > 0 ==> s * f / 1000 < s) by (nonlinear_arith)
            requires
                s * f <= s * 999,
                0 <= s * f,
        ;
        assert(s * f / 1000 <= s);
    }
}

/// A report with zero weight or zero confidence adds nothing to the score or
/// to its source's total (the evidence is still appended, see `report_with_confidence`).
pub proof fn lemma_null_report_adds_nothing(weight: u32, confidence: u32, score: u32)
    requires
        weight == 0 || confidence == 0,
    ensures
        effective_weight(weight, confidence) == 0,
        saturate(score + effective_weight(weight, confidence)) == score,
{
    assert(weight as int * confidence as int == 0) by (nonlinear_arith)
        requires
            weight == 0 || confidence == 0,
    ;
}

} // verus!
