//! Ptrace detection: the tracer recorded in the process status, and whether
//! `PTRACE_TRACEME` finds the tracee slot taken. These run last, since a
//! successful `PTRACE_TRACEME` changes the process for the rest of the run.
use vstd::prelude::*;
use vstd::string::StringSliceAdditionalSpecFns;
use crate::engine::policy::{
    only_appends, group_only_appends, DecisionEngine, DetectionSource, Finding, FULL_CONFIDENCE,
    finding, findings_of, only_if,
};
use crate::engine::signal_compat::tracer_pid_tag;
use crate::parse::{
    has_at, is_line_start, matches_at, parse_i32, read_i32, second_token, second_token_bounds,
};

verus! {

broadcast use group_only_appends;

/// The tracer PID that the first `TracerPid:` line from position `from` on
/// gives as an `i32`: none without such a line or without a second token on
/// it, 0 for a token that is no `i32`.
pub open spec fn first_tracer_field(t: Seq<u8>, from: int) -> Option<int>
    decreases t.len() - from,
{
    if from < 0 || from >= t.len() {
        None
    } else if is_line_start(t, from) && has_at(t, from, tracer_pid_tag()) {
        match second_token(t, from) {
            Some(tok) => Some(
                match parse_i32(tok) {
                    Some(v) => v,
                    None => 0,
                },
            ),
            None => None,
        }
    } else {
        first_tracer_field(t, from + 1)
    }
}

/// A non-zero tracer PID in the status text.
pub open spec fn tracer_findings(status: Seq<u8>) -> Seq<Finding> {
    only_if(
        first_tracer_field(status, 0) matches Some(p) && p != 0,
        finding(DetectionSource::Ptrace, 70, FULL_CONFIDENCE),
    )
}

/// Report the tracer recorded in a process status text.
pub fn check_tracer_pid(engine: &mut DecisionEngine, status: &str)
    requires
        old(engine).consistent(),
    ensures
        final(engine).consistent(),
        only_appends(*old(engine), *final(engine)),
        findings_of(final(engine).history()) == findings_of(old(engine).history())
            + tracer_findings(status.spec_bytes()),
        final(engine).contradictions() == old(engine).contradictions(),
        old(engine).undamped() ==> final(engine).undamped(),
{
    let pid = tracer_field(status);
    if let Some(p) = pid {
        if p != 0 {
            let msg = crate::text::with_signed("TracerPid is non-zero: ", p as i64, " (Debugger attached)");
            engine.report(DetectionSource::Ptrace, 70, msg.as_str());
        }
    }
    assert(findings_of(engine.history()) =~= findings_of(old(engine).history())
        + tracer_findings(status.spec_bytes()));
}

fn tracer_field(status: &str) -> (r: Option<i32>)
    ensures
        match first_tracer_field(status.spec_bytes(), 0) {
            Some(v) => r == Some(v as i32) && i32::MIN <= v <= i32::MAX,
            None => r is None,
        },
{
    let t = status.as_bytes();
    let tag = "TracerPid:".as_bytes();
    let mut i: usize = 0;
    while i < t.len()
        invariant
            i <= t@.len(),
            tag@ == tracer_pid_tag(),
            t@ == status.spec_bytes(),
            first_tracer_field(t@, 0) == first_tracer_field(t@, i as int),
        decreases t@.len() - i,
    {
        if (i == 0 || t[i - 1] == 10) && matches_at(t, i, tag) {
            assert(is_line_start(t@, i as int));
            return match second_token_bounds(t, i) {
                Some((a, b)) => {
                    let ghost tok = t@.subrange(a as int, b as int);
                    match read_i32(t, a, b) {
                        Some(v) => {
                            assert(parse_i32(tok) is Some);
                            Some(v)
                        },
                        None => Some(0),
                    }
                },
                None => None,
            };
        }
        i = i + 1;
    }
    None
}

/// A failed `PTRACE_TRACEME`: the tracee slot is taken.
pub open spec fn traceme_findings(failed: bool) -> Seq<Finding> {
    only_if(failed, finding(DetectionSource::Ptrace, 80, FULL_CONFIDENCE))
}

/// Report the outcome of `PTRACE_TRACEME`; `error` describes the failure.
pub fn check_ptrace(engine: &mut DecisionEngine, failed: bool, error: &str)
    requires
        old(engine).consistent(),
    ensures
        final(engine).consistent(),
        only_appends(*old(engine), *final(engine)),
        findings_of(final(engine).history()) == findings_of(old(engine).history())
            + traceme_findings(failed),
        final(engine).contradictions() == old(engine).contradictions(),
        old(engine).undamped() ==> final(engine).undamped(),
{
    if failed {
        let mut msg = String::from_str("ptrace(PTRACE_TRACEME) failed: ");
        msg.append(error);
        msg.append(" (Debugger attached)");
        engine.report(DetectionSource::Ptrace, 80, msg.as_str());
    }
    assert(findings_of(engine.history()) =~= findings_of(old(engine).history())
        + traceme_findings(failed));
}

} // verus!
