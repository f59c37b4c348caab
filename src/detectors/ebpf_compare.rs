//! Observer comparison: the program's own TSC-based account of a burst of
//! system calls against a wall-clock account of the same burst.
use vstd::prelude::*;
use vstd::string::StringSliceAdditionalSpecFns;
use crate::engine::policy::{
    only_appends, group_only_appends, DecisionEngine, DetectionSource, Finding, finding,
    findings_of, only_if,
};
use crate::parse::{
    find_byte, find_from, parse_unsigned, read_unsigned,
};
use crate::text::with_number;

verus! {

broadcast use group_only_appends;

/// One system call as an observer saw it.
#[derive(Debug, Clone, Copy, PartialEq, Eq, Structural)]
pub struct SyscallObservation {
    pub syscall_nr: u64,
    pub timestamp_ns: u64,
    pub duration_ns: u64,
}

/// Outcome of comparing the internal and external accounts of one trial.
#[derive(Debug, Clone)]
pub struct ObserverComparison {
    pub internal_syscall_count: usize,
    pub external_syscall_count: Option<usize>,
    pub timing_discrepancy_ns: Option<i64>,
    pub discrepancy_detected: bool,
    pub notes: String,
}

/// Wall-clock nanoseconds as approximate cycles (3 GHz).
pub open spec fn approx_cycles(external_ns: u64) -> int {
    3 * external_ns
}

/// The internal/external cycle ratio lies outside `[0.1, 10]`; an external
/// account of 0 cycles counts as 1.
pub open spec fn timing_ratio_off(internal_cycles: u64, external_ns: u64) -> bool {
    let ext = if approx_cycles(external_ns) == 0 {
        1
    } else {
        approx_cycles(external_ns)
    };
    internal_cycles > 10 * ext || 10 * internal_cycles < ext
}

/// `(internal - external) / 3`, rounded toward zero and held to the `i64` range.
pub open spec fn discrepancy_ns(internal_cycles: u64, external_ns: u64) -> i64 {
    let d = internal_cycles - approx_cycles(external_ns);
    let q = if d >= 0 {
        d / 3
    } else {
        -((-d) / 3)
    };
    if q < i64::MIN {
        i64::MIN
    } else {
        q as i64
    }
}

/// Compare one trial: `internal_cycles` is the TSC span of the internal
/// measurement, which timed `internal_count` calls; `external_ns` is the
/// wall-clock span of `external_count` calls. A discrepancy is a count
/// mismatch or a cycle ratio outside `[0.1, 10]`.
pub fn compare_observations(
    internal_cycles: u64,
    internal_count: usize,
    external_ns: u64,
    external_count: usize,
) -> (r: ObserverComparison)
    ensures
        r.internal_syscall_count == internal_count,
        r.external_syscall_count == Some(external_count),
        r.timing_discrepancy_ns == Some(discrepancy_ns(internal_cycles, external_ns)),
        r.discrepancy_detected == (internal_count != external_count || timing_ratio_off(
            internal_cycles,
            external_ns,
        )),
        (r.notes@ == "Observations consistent within tolerance."@) == !r.discrepancy_detected,
{
    let ext: u128 = external_ns as u128 * 3;
    let denom: u128 = if ext == 0 {
        1
    } else {
        ext
    };
    let internal = internal_cycles as u128;
    let mut discrepancy = false;
    let mut notes = String::new();
    proof {
        reveal_strlit("Syscall count mismatch: internal=");
        reveal_strlit("Timing discrepancy: internal=");
        reveal_strlit("Observations consistent within tolerance.");
    }
    if internal_count != external_count {
        discrepancy = true;
        let a = with_number("Syscall count mismatch: internal=", internal_count as u64, ", external=");
        let b = with_number("", external_count as u64, ". ");
        notes.append(a.as_str());
        notes.append(b.as_str());
        assert(notes@[0] == 'S');
    }
    let ghost before = notes@;
    if internal > denom * 10 || internal * 10 < denom {
        let a = with_number("Timing discrepancy: internal=", internal_cycles, " cycles, external=");
        let b = with_number("", external_ns, " ns. ");
        notes.append(a.as_str());
        notes.append(b.as_str());
        assert(discrepancy ==> notes@[0] == before[0]);
        assert(!discrepancy ==> notes@[0] == 'T');
        discrepancy = true;
    }
    assert(discrepancy ==> notes@.len() > 0 && (notes@[0] == 'S' || notes@[0] == 'T'));
    if !discrepancy {
        notes = String::from_str("Observations consistent within tolerance.");
    }
    assert(discrepancy ==> notes@ != "Observations consistent within tolerance."@);
    let diff: i64 = if internal >= ext {
        ((internal - ext) / 3) as i64
    } else {
        let q = (ext - internal) / 3;
        if q > 0x8000_0000_0000_0000 {
            i64::MIN
        } else {
            (0 - q as i128) as i64
        }
    };
    ObserverComparison {
        internal_syscall_count: internal_count,
        external_syscall_count: Some(external_count),
        timing_discrepancy_ns: Some(diff),
        discrepancy_detected: discrepancy,
        notes,
    }
}

/// Number of comparisons that found a discrepancy.
pub open spec fn discrepant_count(c: Seq<ObserverComparison>) -> nat
    decreases c.len(),
{
    if c.len() == 0 {
        0
    } else {
        discrepant_count(c.drop_last()) + if c.last().discrepancy_detected {
            1nat
        } else {
            0nat
        }
    }
}

/// With `k` of the `n` trials discrepant and `k > 0`: weight 30 at confidence `k / n`.
pub open spec fn observer_findings(c: Seq<ObserverComparison>) -> Seq<Finding> {
    let k = discrepant_count(c);
    only_if(
        k > 0,
        finding(DetectionSource::EbpfComparison, 30, (k as int * 1000 / c.len() as int) as u32),
    )
}

proof fn lemma_discrepant_le(c: Seq<ObserverComparison>)
    ensures
        discrepant_count(c) <= c.len(),
    decreases c.len(),
{
    if c.len() > 0 {
        lemma_discrepant_le(c.drop_last());
    }
}

/// Report the observer comparison over its trials.
pub fn check_ebpf_comparison(engine: &mut DecisionEngine, comparisons: &[ObserverComparison])
    requires
        old(engine).consistent(),
    ensures
        final(engine).consistent(),
        only_appends(*old(engine), *final(engine)),
        findings_of(final(engine).history()) == findings_of(old(engine).history())
            + observer_findings(comparisons@),
        final(engine).contradictions() == old(engine).contradictions(),
        old(engine).undamped() ==> final(engine).undamped(),
{
    let mut k: usize = 0;
    let mut i: usize = 0;
    assert(comparisons@.take(0) =~= Seq::<ObserverComparison>::empty());
    while i < comparisons.len()
        invariant
            i <= comparisons@.len(),
            k == discrepant_count(comparisons@.take(i as int)),
            k <= i,
        decreases comparisons@.len() - i,
    {
        assert(comparisons@.take(i + 1).drop_last() =~= comparisons@.take(i as int));
        if comparisons[i].discrepancy_detected {
            k = k + 1;
        }
        i = i + 1;
    }
    assert(comparisons@.take(i as int) =~= comparisons@);
    if k > 0 {
        let n = comparisons.len();
        assert(k * 1000 / n as int <= 1000) by (nonlinear_arith)
            requires
                k <= n,
                n > 0,
        ;
        let confidence = ((k as u128 * 1000) / n as u128) as u32;
        let a = with_number("Observer discrepancy in ", k as u64, "/");
        let b = with_number("", n as u64, " trials (timing virtualization?)");
        let mut msg = a;
        msg.append(b.as_str());
        engine.report_with_confidence(DetectionSource::EbpfComparison, 30, confidence, msg.as_str());
    }
    assert(findings_of(engine.history()) =~= findings_of(old(engine).history())
        + observer_findings(comparisons@));
}

/// Kernel version of an `osrelease` text, `major.minor...`: fields that are no
/// number read as 0; no `.` at all gives none.
pub open spec fn kernel_version(t: Seq<u8>) -> Option<(int, int)> {
    let n = t.len() as int;
    let d1 = find_from(t, 0, n, 46);
    let d2 = find_from(t, d1 + 1, n, 46);
    if d1 >= n {
        None
    } else {
        Some(
            (
                match parse_unsigned(t.subrange(0, d1), 10, u32::MAX as int) {
                    Some(v) => v,
                    None => 0,
                },
                match parse_unsigned(t.subrange(d1 + 1, d2), 10, u32::MAX as int) {
                    Some(v) => v,
                    None => 0,
                },
            ),
        )
    }
}

/// Real eBPF observation is possible: BTF type information is present, the
/// effective user is root, and the kernel is 4.18 or later.
pub open spec fn ebpf_possible(btf_available: bool, euid: u32, osrelease: Seq<u8>) -> bool {
    &&& btf_available
    &&& euid == 0
    &&& kernel_version(osrelease) matches Some((major, minor)) && (major > 4 || (major == 4
        && minor >= 18))
}

/// See `ebpf_possible`.
pub fn check_ebpf_availability(btf_available: bool, euid: u32, osrelease: &str) -> (r: bool)
    ensures
        r == ebpf_possible(btf_available, euid, osrelease.spec_bytes()),
{
    let t = osrelease.as_bytes();
    let n = t.len();
    let d1 = find_byte(t, 0, n, 46);
    if d1 >= n {
        return false;
    }
    let d2 = find_byte(t, d1 + 1, n, 46);
    let major = match read_unsigned(t, 0, d1, 10, u32::MAX as u64) {
        Some(v) => v,
        None => 0,
    };
    let minor = match read_unsigned(t, d1 + 1, d2, 10, u32::MAX as u64) {
        Some(v) => v,
        None => 0,
    };
    btf_available && euid == 0 && (major > 4 || (major == 4 && minor >= 18))
}

} // verus!
