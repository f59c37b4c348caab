//! Record-and-replay (rr-class) detection: a virtualized CPU, a TSC that does
//! not follow the wall clock, deterministic signal delivery, and traces left
//! in the process environment.
use vstd::prelude::*;
use vstd::string::StringSliceAdditionalSpecFns;
use crate::engine::policy::{
    only_appends, group_only_appends, DecisionEngine, DetectionSource, Finding, FULL_CONFIDENCE,
    finding, findings_of, only_if,
};
use crate::parse::{
    all_digits, contains, contains_bytes, find_byte, find_from, first_token, first_token_bounds,
    has_at, is_line_start, matches_at, parse_unsigned, read_unsigned, second_token,
    second_token_bounds, str_contains,
};
use crate::text::with_number;

verus! {

broadcast use group_only_appends;

/// The four bytes of `x`, least significant first.
pub open spec fn le_bytes(x: u32) -> Seq<u8> {
    seq![
        (x % 256) as u8,
        (x / 256 % 256) as u8,
        (x / 65536 % 256) as u8,
        (x / 16777216 % 256) as u8,
    ]
}

/// The 12-byte hypervisor vendor signature of CPUID leaf 0x40000000.
pub open spec fn vendor_signature(ebx: u32, ecx: u32, edx: u32) -> Seq<u8> {
    le_bytes(ebx) + le_bytes(ecx) + le_bytes(edx)
}

fn push_le_bytes(v: &mut Vec<u8>, x: u32)
    ensures
        final(v)@ == old(v)@ + le_bytes(x),
{
    v.push((x % 256) as u8);
    v.push((x / 256 % 256) as u8);
    v.push((x / 65536 % 256) as u8);
    v.push((x / 16777216 % 256) as u8);
    assert(v@ =~= old(v)@ + le_bytes(x));
}

/// CPUID findings: the hypervisor-present bit (leaf 1, ECX bit 31), then a
/// vendor signature that names record-and-replay (`rr` or `record`).
pub open spec fn cpuid_findings(leaf1_ecx: u32, hv_eax: u32, hv_ebx: u32, hv_ecx: u32, hv_edx: u32) -> Seq<Finding> {
    let sig = vendor_signature(hv_ebx, hv_ecx, hv_edx);
    if leaf1_ecx >= 0x8000_0000 {
        seq![finding(DetectionSource::RecordReplay, 15, 400)] + only_if(
            hv_eax >= 0x4000_0000 && (contains(sig, "rr".spec_bytes()) || contains(
                sig,
                "record".spec_bytes(),
            )),
            finding(DetectionSource::RecordReplay, 50, FULL_CONFIDENCE),
        )
    } else {
        Seq::empty()
    }
}

/// Report the CPUID findings from leaf 1's ECX and the four registers of leaf 0x40000000.
pub fn check_cpuid_hypervisor(
    engine: &mut DecisionEngine,
    leaf1_ecx: u32,
    hv_eax: u32,
    hv_ebx: u32,
    hv_ecx: u32,
    hv_edx: u32,
)
    requires
        old(engine).consistent(),
    ensures
        final(engine).consistent(),
        only_appends(*old(engine), *final(engine)),
        findings_of(final(engine).history()) == findings_of(old(engine).history()) + cpuid_findings(
            leaf1_ecx,
            hv_eax,
            hv_ebx,
            hv_ecx,
            hv_edx,
        ),
        final(engine).contradictions() == old(engine).contradictions(),
        old(engine).undamped() ==> final(engine).undamped(),
{
    if leaf1_ecx >= 0x8000_0000 {
        engine.report_with_confidence(
            DetectionSource::RecordReplay,
            15,
            400,
            "CPUID hypervisor bit set (rr, VM, or other virtualization)",
        );
        if hv_eax >= 0x4000_0000 {
            let mut sig: Vec<u8> = Vec::new();
            push_le_bytes(&mut sig, hv_ebx);
            push_le_bytes(&mut sig, hv_ecx);
            push_le_bytes(&mut sig, hv_edx);
            assert(sig@ =~= vendor_signature(hv_ebx, hv_ecx, hv_edx));
            if contains_bytes(sig.as_slice(), "rr".as_bytes()) || contains_bytes(
                sig.as_slice(),
                "record".as_bytes(),
            ) {
                engine.report(
                    DetectionSource::RecordReplay,
                    50,
                    "Hypervisor identifies as record-replay",
                );
            }
        }
    }
    assert(findings_of(engine.history()) =~= findings_of(old(engine).history()) + cpuid_findings(
        leaf1_ecx,
        hv_eax,
        hv_ebx,
        hv_ecx,
        hv_edx,
    ));
}

/// TSC against the wall clock over one sleep: fewer than 0.1 ticks per
/// nanosecond is too slow, more than 20 too fast.
pub open spec fn tsc_wall_findings(tsc_delta: u64, wall_ns: u64) -> Seq<Finding> {
    if 10 * tsc_delta < wall_ns {
        seq![finding(DetectionSource::RecordReplay, 40, FULL_CONFIDENCE)]
    } else {
        only_if(
            tsc_delta > 20 * wall_ns,
            finding(DetectionSource::RecordReplay, 30, FULL_CONFIDENCE),
        )
    }
}

/// Report how the TSC advanced (`tsc_delta` ticks) against the wall clock
/// (`wall_ns` nanoseconds) over the same interval.
pub fn check_rdtsc_vs_wall_clock(engine: &mut DecisionEngine, tsc_delta: u64, wall_ns: u64)
    requires
        old(engine).consistent(),
    ensures
        final(engine).consistent(),
        only_appends(*old(engine), *final(engine)),
        findings_of(final(engine).history()) == findings_of(old(engine).history())
            + tsc_wall_findings(tsc_delta, wall_ns),
        final(engine).contradictions() == old(engine).contradictions(),
        old(engine).undamped() ==> final(engine).undamped(),
{
    if (tsc_delta as u128) * 10 < wall_ns as u128 {
        let msg = with_number("TSC advancing too slowly vs wall clock (rr?): ", tsc_delta, " ticks in ");
        let tail = with_number("", wall_ns, " ns");
        let mut m = msg;
        m.append(tail.as_str());
        engine.report(DetectionSource::RecordReplay, 40, m.as_str());
    } else if tsc_delta as u128 > (wall_ns as u128) * 20 {
        let msg = with_number("TSC advancing too fast vs wall clock (unusual): ", tsc_delta, " ticks in ");
        let tail = with_number("", wall_ns, " ns");
        let mut m = msg;
        m.append(tail.as_str());
        engine.report(DetectionSource::RecordReplay, 30, m.as_str());
    }
    assert(findings_of(engine.history()) =~= findings_of(old(engine).history())
        + tsc_wall_findings(tsc_delta, wall_ns));
}

/// A decimal numeral (digits, optionally a point and more digits) of at least 0.5.
pub open spec fn numeral_at_least_half(tok: Seq<u8>) -> bool {
    let n = tok.len() as int;
    let dot = find_from(tok, 0, n, 46);
    let whole = tok.subrange(0, dot);
    let frac = if dot < n {
        tok.subrange(dot + 1, n)
    } else {
        Seq::empty()
    };
    &&& all_digits(whole, 10)
    &&& all_digits(frac, 10)
    &&& whole.len() + frac.len() > 0
    &&& ((exists|i: int| 0 <= i < whole.len() && #[trigger] whole[i] != 48) || (frac.len() > 0
        && frac[0] >= 53))
}

/// The 1-minute load average, the first field of a `/proc/loadavg` text, is
/// at least 0.5 (a field that is no numeral reads as 0).
pub open spec fn load_at_least_half(loadavg: Seq<u8>) -> bool {
    numeral_at_least_half(first_token(loadavg, 0))
}

fn all_digit_bytes(t: &[u8], a: usize, b: usize) -> (r: bool)
    requires
        a <= b <= t@.len(),
    ensures
        r == all_digits(t@.subrange(a as int, b as int), 10),
{
    let mut k = a;
    while k < b
        invariant
            a <= k <= b <= t@.len(),
            forall|j: int| a <= j < k ==> 48 <= #[trigger] t@[j] <= 57,
        decreases b - k,
    {
        if t[k] < 48 || t[k] > 57 {
            assert(crate::parse::digit_value(t@.subrange(a as int, b as int)[k - a], 10) < 0);
            return false;
        }
        k = k + 1;
    }
    assert forall|i: int| 0 <= i < b - a implies #[trigger] crate::parse::digit_value(
        t@.subrange(a as int, b as int)[i],
        10,
    ) >= 0 by {
        assert(t@.subrange(a as int, b as int)[i] == t@[a + i]);
    }
    true
}

/// The 1-minute load average in a `/proc/loadavg` text is at least 0.5.
pub fn loadavg_at_least_half(loadavg: &str) -> (r: bool)
    ensures
        r == load_at_least_half(loadavg.spec_bytes()),
{
    let t = loadavg.as_bytes();
    let (a, b) = first_token_bounds(t, 0);
    let ghost tok = t@.subrange(a as int, b as int);
    let dot = find_byte(t, a, b, 46);
    proof {
        lemma_find_shift(t@, a as int, b as int, 46, a as int);
    }
    let whole_ok = all_digit_bytes(t, a, dot);
    let frac_start = if dot < b {
        dot + 1
    } else {
        b
    };
    let frac_ok = all_digit_bytes(t, frac_start, b);
    proof {
        assert(tok.subrange(0, dot - a) =~= t@.subrange(a as int, dot as int));
        assert(dot < b ==> tok.subrange(dot - a + 1, tok.len() as int) =~= t@.subrange(
            frac_start as int,
            b as int,
        ));
        assert(dot >= b ==> t@.subrange(frac_start as int, b as int) =~= Seq::<u8>::empty());
    }
    if !whole_ok || !frac_ok || (dot - a) + (b - frac_start) == 0 {
        return false;
    }
    let mut k = a;
    #[verifier::loop_isolation(false)]
    while k < dot
        invariant
            a <= k <= dot <= b <= t@.len(),
            forall|j: int| a <= j < k ==> #[trigger] t@[j] == 48,
        decreases dot - k,
    {
        if t[k] != 48 {
            assert(t@.subrange(a as int, dot as int)[k - a] != 48);
            return true;
        }
        k = k + 1;
    }
    assert forall|i: int| 0 <= i < dot - a implies #[trigger] t@.subrange(a as int, dot as int)[i] == 48 by {
        assert(t@.subrange(a as int, dot as int)[i] == t@[a + i]);
    }
    frac_start < b && t[frac_start] >= 53
}

proof fn lemma_find_shift(t: Seq<u8>, a: int, b: int, x: u8, i: int)
    requires
        0 <= a <= i <= b <= t.len(),
    ensures
        find_from(t, i, b, x) - a == find_from(t.subrange(a, b), i - a, b - a, x),
    decreases b - i,
{
    if i < b {
        assert(t.subrange(a, b)[i - a] == t[i]);
        lemma_find_shift(t, a, b, x, i + 1);
    }
}

/// Signal orders that are all equal (and at least one).
pub open spec fn all_same(orders: Seq<u32>) -> bool {
    orders.len() > 0 && forall|i: int| 0 <= i < orders.len() ==> #[trigger] orders[i] == orders[0]
}

/// Deterministic signal delivery is only worth a weak report on a loaded
/// system: on an idle one it is the norm.
pub open spec fn signal_findings(orders: Seq<u32>, loaded: bool) -> Seq<Finding> {
    only_if(all_same(orders) && loaded, finding(DetectionSource::RecordReplay, 2, 150))
}

/// Report the outcome of the signal-ordering trials: `orders` holds the order
/// value observed in each trial, `loadavg` the text of `/proc/loadavg`.
pub fn check_signal_determinism(engine: &mut DecisionEngine, orders: &[u32], loadavg: &str)
    requires
        old(engine).consistent(),
    ensures
        final(engine).consistent(),
        only_appends(*old(engine), *final(engine)),
        findings_of(final(engine).history()) == findings_of(old(engine).history()) + signal_findings(
            orders@,
            load_at_least_half(loadavg.spec_bytes()),
        ),
        final(engine).contradictions() == old(engine).contradictions(),
        old(engine).undamped() ==> final(engine).undamped(),
{
    let mut same = orders.len() > 0;
    let mut i: usize = 1;
    while i < orders.len() && same
        invariant
            1 <= i <= orders@.len() || orders@.len() == 0,
            same ==> orders@.len() > 0 && forall|j: int| 0 <= j < i ==> #[trigger] orders@[j] == orders@[0],
            !same ==> !all_same(orders@),
        decreases orders@.len() - i,
    {
        if orders[i] != orders[0] {
            same = false;
        }
        i = i + 1;
    }
    if same {
        assert(all_same(orders@));
        if loadavg_at_least_half(loadavg) {
            engine.report_with_confidence(
                DetectionSource::RecordReplay,
                2,
                150,
                "Signal delivery deterministic across all trials under load - possible rr but likely false positive",
            );
        }
    }
    assert(findings_of(engine.history()) =~= findings_of(old(engine).history()) + signal_findings(
        orders@,
        load_at_least_half(loadavg.spec_bytes()),
    ));
}

/// An executable path that mentions `rr`.
pub open spec fn exe_findings(exe: Seq<u8>) -> Seq<Finding> {
    only_if(contains(exe, "rr".spec_bytes()), finding(DetectionSource::RecordReplay, 60, FULL_CONFIDENCE))
}

/// Report the target of `/proc/self/exe`.
pub fn check_exe_path(engine: &mut DecisionEngine, exe: &str)
    requires
        old(engine).consistent(),
    ensures
        final(engine).consistent(),
        only_appends(*old(engine), *final(engine)),
        findings_of(final(engine).history()) == findings_of(old(engine).history()) + exe_findings(
            exe.spec_bytes(),
        ),
        final(engine).contradictions() == old(engine).contradictions(),
        old(engine).undamped() ==> final(engine).undamped(),
{
    if str_contains(exe, "rr") {
        let mut msg = String::from_str("/proc/self/exe points to rr-related path: ");
        msg.append(exe);
        engine.report(DetectionSource::RecordReplay, 60, msg.as_str());
    }
    assert(findings_of(engine.history()) =~= findings_of(old(engine).history()) + exe_findings(
        exe.spec_bytes(),
    ));
}

/// A variable that replay tools set: `_RR_TRACE_DIR`, any `RR_*`, or `LD_PRELOAD`.
pub open spec fn replay_variable(name: Seq<u8>) -> bool {
    ||| name == "_RR_TRACE_DIR".spec_bytes()
    ||| has_at(name, 0, "RR_".spec_bytes())
    ||| name == "LD_PRELOAD".spec_bytes()
}

fn same_bytes(a: &[u8], b: &[u8]) -> (r: bool)
    ensures
        r == (a@ == b@),
{
    if a.len() != b.len() {
        return false;
    }
    let r = matches_at(a, 0, b);
    assert(r ==> a@.subrange(0, b@.len() as int) =~= a@);
    assert(a@ == b@ ==> a@.subrange(0, b@.len() as int) =~= a@);
    r
}

/// See `replay_variable`.
pub fn is_replay_variable(name: &str) -> (r: bool)
    ensures
        r == replay_variable(name.spec_bytes()),
{
    let n = name.as_bytes();
    same_bytes(n, "_RR_TRACE_DIR".as_bytes()) || matches_at(n, 0, "RR_".as_bytes()) || same_bytes(
        n,
        "LD_PRELOAD".as_bytes(),
    )
}

/// A replay variable whose value mentions `rr`, `record` or `replay`.
pub open spec fn env_findings(name: Seq<u8>, value: Seq<u8>) -> Seq<Finding> {
    only_if(
        replay_variable(name) && (contains(value, "rr".spec_bytes()) || contains(
            value,
            "record".spec_bytes(),
        ) || contains(value, "replay".spec_bytes())),
        finding(DetectionSource::RecordReplay, 40, FULL_CONFIDENCE),
    )
}

/// Report one environment variable of the process.
pub fn check_environment_variable(engine: &mut DecisionEngine, name: &str, value: &str)
    requires
        old(engine).consistent(),
    ensures
        final(engine).consistent(),
        only_appends(*old(engine), *final(engine)),
        findings_of(final(engine).history()) == findings_of(old(engine).history()) + env_findings(
            name.spec_bytes(),
            value.spec_bytes(),
        ),
        final(engine).contradictions() == old(engine).contradictions(),
        old(engine).undamped() ==> final(engine).undamped(),
{
    if is_replay_variable(name) && (str_contains(value, "rr") || str_contains(value, "record")
        || str_contains(value, "replay")) {
        let mut msg = String::from_str("rr-related environment variable: ");
        msg.append(name);
        msg.append("=");
        msg.append(value);
        engine.report(DetectionSource::RecordReplay, 40, msg.as_str());
    }
    assert(findings_of(engine.history()) =~= findings_of(old(engine).history()) + env_findings(
        name.spec_bytes(),
        value.spec_bytes(),
    ));
}

/// The parent PID in a status text, looking from position `from` on: the
/// first line tagged `PPid:` whose second token is a `u32`.
pub open spec fn parent_pid_from(t: Seq<u8>, from: int) -> Option<u32>
    decreases t.len() - from,
{
    if from < 0 || from >= t.len() {
        None
    } else if is_line_start(t, from) && has_at(t, from, "PPid:".spec_bytes()) && second_token(
        t,
        from,
    ) is Some && parse_unsigned(second_token(t, from)->0, 10, u32::MAX as int) is Some {
        Some(parse_unsigned(second_token(t, from)->0, 10, u32::MAX as int)->0 as u32)
    } else {
        parent_pid_from(t, from + 1)
    }
}

/// The parent PID recorded in a process status text.
pub fn parent_pid_from_status(status: &str) -> (r: Option<u32>)
    ensures
        r == parent_pid_from(status.spec_bytes(), 0),
{
    let t = status.as_bytes();
    let tag = "PPid:".as_bytes();
    let mut i: usize = 0;
    while i < t.len()
        invariant
            i <= t@.len(),
            tag@ == "PPid:".spec_bytes(),
            t@ == status.spec_bytes(),
            parent_pid_from(t@, 0) == parent_pid_from(t@, i as int),
        decreases t@.len() - i,
    {
        if (i == 0 || t[i - 1] == 10) && matches_at(t, i, tag) {
            assert(is_line_start(t@, i as int));
            match second_token_bounds(t, i) {
                Some((a, b)) => {
                    let ghost tok = t@.subrange(a as int, b as int);
                    match read_unsigned(t, a, b, 10, u32::MAX as u64) {
                        Some(v) => {
                            assert(parse_unsigned(tok, 10, u32::MAX as int) is Some);
                            return Some(v as u32);
                        },
                        None => {},
                    }
                },
                None => {},
            }
        }
        i = i + 1;
    }
    None
}

/// A parent process whose name mentions `rr`.
pub open spec fn parent_findings(comm: Seq<u8>) -> Seq<Finding> {
    only_if(contains(comm, "rr".spec_bytes()), finding(DetectionSource::RecordReplay, 50, FULL_CONFIDENCE))
}

/// Report the parent process's name (the text of `/proc/<ppid>/comm`).
pub fn check_parent_comm(engine: &mut DecisionEngine, comm: &str)
    requires
        old(engine).consistent(),
    ensures
        final(engine).consistent(),
        only_appends(*old(engine), *final(engine)),
        findings_of(final(engine).history()) == findings_of(old(engine).history()) + parent_findings(
            comm.spec_bytes(),
        ),
        final(engine).contradictions() == old(engine).contradictions(),
        old(engine).undamped() ==> final(engine).undamped(),
{
    if str_contains(comm, "rr") {
        let mut msg = String::from_str("Parent process appears to be rr: ");
        msg.append(comm);
        engine.report(DetectionSource::RecordReplay, 50, msg.as_str());
    }
    assert(findings_of(engine.history()) =~= findings_of(old(engine).history()) + parent_findings(
        comm.spec_bytes(),
    ));
}

} // verus!
