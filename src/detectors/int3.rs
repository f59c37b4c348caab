//! Software-breakpoint scan: `0xCC` (INT3) bytes in the executable mappings of
//! the program's own image, told apart from compiler alignment padding by
//! their clustering.
use vstd::prelude::*;
use vstd::string::StringSliceAdditionalSpecFns;
use crate::engine::policy::{
    only_appends, group_only_appends, DecisionEngine, DetectionSource, Finding, finding,
    findings_of, only_if,
};
use crate::parse::{
    bytes_equal, find_from, find_token_start, skip_token, token_start, first_token,
    first_token_bounds, is_line_start, line_end, parse_unsigned, read_unsigned,
};
use crate::text::with_number;

verus! {

broadcast use group_only_appends;

/// The INT3 opcode.
pub const INT3: u8 = 0xCC;

/// Above this many INT3 bytes, clustered ones are almost certainly padding.
pub const INT3_ALIGNMENT_THRESHOLD: usize = 1000;

/// At most this many scattered INT3 bytes look like breakpoints.
pub const INT3_BREAKPOINT_THRESHOLD: usize = 20;

/// Number of `0xCC` bytes in `s`.
pub open spec fn count_int3(s: Seq<u8>) -> nat
    decreases s.len(),
{
    if s.len() == 0 {
        0
    } else {
        count_int3(s.drop_last()) + if s.last() == INT3 {
            1nat
        } else {
            0nat
        }
    }
}

/// Count the `0xCC` bytes of a region.
pub fn scan_int3(region: &[u8]) -> (r: usize)
    ensures
        r == count_int3(region@),
{
    let mut n: usize = 0;
    let mut i: usize = 0;
    assert(region@.take(0) =~= Seq::<u8>::empty());
    while i < region.len()
        invariant
            i <= region@.len(),
            n == count_int3(region@.take(i as int)),
            n <= i,
        decreases region@.len() - i,
    {
        assert(region@.take(i + 1).drop_last() =~= region@.take(i as int));
        if region[i] == INT3 {
            n = n + 1;
        }
        i = i + 1;
    }
    assert(region@.take(i as int) =~= region@);
    n
}

/// Walk state over a region: (INT3 bytes so far, length of the current run,
/// longest finished run, finished runs of 4 or more).
pub open spec fn run_state(s: Seq<u8>) -> (nat, nat, nat, nat)
    decreases s.len(),
{
    if s.len() == 0 {
        (0, 0, 0, 0)
    } else {
        let (total, cur, largest, clusters) = run_state(s.drop_last());
        if s.last() == INT3 {
            (total + 1, cur + 1, largest, clusters)
        } else if cur > 0 {
            (
                total,
                0,
                if cur > largest {
                    cur
                } else {
                    largest
                },
                if cur >= 4 {
                    clusters + 1
                } else {
                    clusters
                },
            )
        } else {
            (total, cur, largest, clusters)
        }
    }
}

/// Shape of the INT3 bytes of a region: (total count, longest run, runs of 4
/// or more), the trailing run included.
pub open spec fn int3_shape(s: Seq<u8>) -> (nat, nat, nat) {
    let (total, cur, largest, clusters) = run_state(s);
    (
        total,
        if cur > largest {
            cur
        } else {
            largest
        },
        if cur >= 4 {
            clusters + 1
        } else {
            clusters
        },
    )
}

/// Padding rather than breakpoints: a run of 16 or more, or some run of 4 or
/// more among over 100 bytes.
pub open spec fn looks_like_alignment(total: nat, largest: nat, clusters: nat) -> bool {
    largest >= 16 || (clusters > 0 && total > 100)
}

proof fn lemma_run_state_bounds(s: Seq<u8>)
    ensures
        run_state(s).0 <= s.len(),
        run_state(s).1 <= s.len(),
        run_state(s).2 <= s.len(),
        run_state(s).3 <= s.len(),
        run_state(s).3 + run_state(s).1 <= s.len(),
    decreases s.len(),
{
    if s.len() > 0 {
        lemma_run_state_bounds(s.drop_last());
    }
}

/// Total INT3 bytes, longest run, and whether the pattern looks like
/// alignment padding (see `looks_like_alignment`).
pub fn analyze_int3_pattern(region: &[u8]) -> (r: (usize, usize, bool))
    ensures
        r.0 == int3_shape(region@).0,
        r.1 == int3_shape(region@).1,
        r.2 == looks_like_alignment(
            int3_shape(region@).0,
            int3_shape(region@).1,
            int3_shape(region@).2,
        ),
{
    let mut total: usize = 0;
    let mut current: usize = 0;
    let mut largest: usize = 0;
    let mut clusters: usize = 0;
    let mut i: usize = 0;
    assert(region@.take(0) =~= Seq::<u8>::empty());
    while i < region.len()
        invariant
            i <= region@.len(),
            run_state(region@.take(i as int)) == (
                total as nat,
                current as nat,
                largest as nat,
                clusters as nat,
            ),
        decreases region@.len() - i,
    {
        proof {
            assert(region@.take(i + 1).drop_last() =~= region@.take(i as int));
            lemma_run_state_bounds(region@.take(i as int));
        }
        if region[i] == INT3 {
            total = total + 1;
            current = current + 1;
        } else if current > 0 {
            if current > largest {
                largest = current;
            }
            if current >= 4 {
                clusters = clusters + 1;
            }
            current = 0;
        }
        i = i + 1;
    }
    proof {
        assert(region@.take(i as int) =~= region@);
        lemma_run_state_bounds(region@);
    }
    if current > largest {
        largest = current;
    }
    if current >= 4 {
        clusters = clusters + 1;
    }
    let is_alignment = largest >= 16 || (clusters > 0 && total > 100);
    (total, largest, is_alignment)
}

/// Weight and confidence (thousandths) for a region with `total` INT3 bytes.
pub open spec fn int3_classification(total: nat, alignment: bool) -> (u32, u32) {
    if total > INT3_ALIGNMENT_THRESHOLD && alignment {
        (1, 100)
    } else if alignment && total > 100 {
        (2, 300)
    } else if total > INT3_BREAKPOINT_THRESHOLD {
        (5, 500)
    } else {
        (25, 800)
    }
}

/// Weight, confidence (thousandths) and reading of a region's INT3 pattern.
pub fn classify_int3(total: usize, is_alignment: bool) -> (r: (u32, u32, &'static str))
    ensures
        (r.0, r.1) == int3_classification(total as nat, is_alignment),
{
    if total > INT3_ALIGNMENT_THRESHOLD && is_alignment {
        (1, 100, "Compiler alignment padding (dense clusters, high count)")
    } else if is_alignment && total > 100 {
        (2, 300, "Likely compiler alignment (clustered pattern)")
    } else if total > INT3_BREAKPOINT_THRESHOLD {
        (5, 500, "Ambiguous INT3 pattern (possible breakpoints or alignment)")
    } else {
        (25, 800, "Likely debugger breakpoints (few, scattered)")
    }
}

/// What the scan reports for one executable region: nothing without INT3
/// bytes, otherwise one classified finding.
pub open spec fn int3_findings(region: Seq<u8>) -> Seq<Finding> {
    let (total, largest, clusters) = int3_shape(region);
    let (w, c) = int3_classification(total, looks_like_alignment(total, largest, clusters));
    only_if(total > 0, finding(DetectionSource::Int3, w, c))
}

/// Scan one executable region, mapped at `[start, end)`, whose bytes are
/// `region`, and report its INT3 pattern.
pub fn report_int3_region(engine: &mut DecisionEngine, start: usize, end: usize, region: &[u8])
    requires
        old(engine).consistent(),
    ensures
        final(engine).consistent(),
        only_appends(*old(engine), *final(engine)),
        findings_of(final(engine).history()) == findings_of(old(engine).history()) + int3_findings(
            region@,
        ),
        final(engine).contradictions() == old(engine).contradictions(),
        old(engine).undamped() ==> final(engine).undamped(),
{
    let (total, _largest, is_alignment) = analyze_int3_pattern(region);
    if total > 0 {
        let (weight, confidence, reason) = classify_int3(total, is_alignment);
        let mut msg = String::from_str(reason);
        msg.append(" - ");
        let count = with_number("", total as u64, " INT3 bytes in region at ");
        msg.append(count.as_str());
        let range = with_number("", start as u64, "-");
        msg.append(range.as_str());
        let tail = with_number("", end as u64, "");
        msg.append(tail.as_str());
        engine.report_with_confidence(DetectionSource::Int3, weight, confidence, msg.as_str());
    }
    assert(findings_of(engine.history()) =~= findings_of(old(engine).history()) + int3_findings(
        region@,
    ));
}

/// The permissions field of an executable, private mapping.
pub open spec fn exec_perms() -> Seq<u8> {
    "r-xp".spec_bytes()
}

/// The permissions field (the second) of the maps line that starts at `i`.
pub open spec fn perms_field(t: Seq<u8>, i: int) -> Seq<u8> {
    let end = line_end(t, i);
    let p = token_start(t, i, end, 1);
    t.subrange(p, skip_token(t, p, end))
}

/// The path field of the maps line that starts at `i`: the rest of the line
/// after the five fields address, permissions, offset, device and inode.
pub open spec fn path_field(t: Seq<u8>, i: int) -> Seq<u8> {
    let end = line_end(t, i);
    t.subrange(token_start(t, i, end, 5), end)
}

/// The address range of a `/proc/self/maps` line of the program's own
/// executable code that starts at `i`: its permissions field is `r-xp`, its
/// path field is `exe`, its first field is `start-end` in hexadecimal (a part
/// that is no number reads as 0), and `0 < start < end`.
pub open spec fn region_at(t: Seq<u8>, exe: Seq<u8>, i: int) -> Option<(int, int)> {
    let tok = first_token(t, i);
    let dash = find_from(tok, 0, tok.len() as int, 45);
    let start = match parse_unsigned(tok.subrange(0, dash), 16, usize::MAX as int) {
        Some(v) => v,
        None => 0,
    };
    let end = match parse_unsigned(tok.subrange(dash + 1, tok.len() as int), 16, usize::MAX as int) {
        Some(v) => v,
        None => 0,
    };
    if is_line_start(t, i) && perms_field(t, i) == exec_perms() && path_field(t, i) == exe && dash
        < tok.len() && find_from(tok, dash + 1, tok.len() as int, 45) == tok.len() && start != 0
        && end > start {
        Some((start, end))
    } else {
        None
    }
}

/// The regions of the lines that start before position `n`, in order.
pub open spec fn regions_upto(t: Seq<u8>, exe: Seq<u8>, n: int) -> Seq<(int, int)>
    decreases n,
{
    if n <= 0 {
        Seq::empty()
    } else {
        regions_upto(t, exe, n - 1) + match region_at(t, exe, n - 1) {
            Some(r) => seq![r],
            None => Seq::empty(),
        }
    }
}

/// The executable regions of the program's own image that a
/// `/proc/self/maps` text lists, in order (see `region_at`).
pub fn executable_regions(maps: &str, exe: &str) -> (r: Vec<(usize, usize)>)
    ensures
        r@.len() == regions_upto(maps.spec_bytes(), exe.spec_bytes(), maps.spec_bytes().len() as int).len(),
        forall|k: int|
            0 <= k < r@.len() ==> (r@[k].0 as int, r@[k].1 as int) == #[trigger] regions_upto(
                maps.spec_bytes(),
                exe.spec_bytes(),
                maps.spec_bytes().len() as int,
            )[k],
{
    let t = maps.as_bytes();
    let e = exe.as_bytes();
    let perms = "r-xp".as_bytes();
    let mut out: Vec<(usize, usize)> = Vec::new();
    let mut i: usize = 0;
    while i < t.len()
        invariant
            i <= t@.len(),
            t@ == maps.spec_bytes(),
            e@ == exe.spec_bytes(),
            perms@ == exec_perms(),
            out@.len() == regions_upto(t@, e@, i as int).len(),
            forall|k: int|
                0 <= k < out@.len() ==> (out@[k].0 as int, out@[k].1 as int)
                    == #[trigger] regions_upto(t@, e@, i as int)[k],
        decreases t@.len() - i,
    {
        let found = region_starting_at(t, e, perms, i);
        let ghost before = out@;
        match found {
            Some(r) => out.push(r),
            None => {},
        }
        proof {
            let prev = regions_upto(t@, e@, i as int);
            let next = regions_upto(t@, e@, i + 1);
            assert(next == prev + match region_at(t@, e@, i as int) {
                Some(r) => seq![r],
                None => Seq::<(int, int)>::empty(),
            });
            assert forall|k: int| 0 <= k < out@.len() implies (out@[k].0 as int, out@[k].1 as int)
                == #[trigger] next[k] by {
                if k < before.len() {
                    assert(out@[k] == before[k]);
                    assert(next[k] == prev[k]);
                }
            }
        }
        i = i + 1;
    }
    out
}

fn region_starting_at(t: &[u8], e: &[u8], perms: &[u8], i: usize) -> (r: Option<(usize, usize)>)
    requires
        i < t@.len(),
        perms@ == exec_perms(),
    ensures
        match region_at(t@, e@, i as int) {
            Some((a, b)) => r matches Some((x, y)) && x == a && y == b,
            None => r is None,
        },
{
    if !(i == 0 || t[i - 1] == 10) {
        return None;
    }
    let end = crate::parse::find_line_end(t, i);
    let p = find_token_start(t, i, end, 1);
    let pe = crate::parse::find_space(t, p, end);
    if !bytes_equal(slice_range(t, p, pe), perms) {
        return None;
    }
    let q = find_token_start(t, i, end, 5);
    if !bytes_equal(slice_range(t, q, end), e) {
        return None;
    }
    let (a, b) = first_token_bounds(t, i);
    let tok = slice_range(t, a, b);
    let ghost tk = tok@;
    let dash = crate::parse::find_byte(tok, 0, tok.len(), 45);
    if dash >= tok.len() {
        return None;
    }
    let second = crate::parse::find_byte(tok, dash + 1, tok.len(), 45);
    if second != tok.len() {
        return None;
    }
    let start = match read_unsigned(tok, 0, dash, 16, usize::MAX as u64) {
        Some(v) => v as usize,
        None => 0,
    };
    let end = match read_unsigned(tok, dash + 1, tok.len(), 16, usize::MAX as u64) {
        Some(v) => v as usize,
        None => 0,
    };
    if start == 0 || end <= start {
        return None;
    }
    Some((start, end))
}

/// `t[a..b]`.
fn slice_range(t: &[u8], a: usize, b: usize) -> (r: &[u8])
    requires
        a <= b <= t@.len(),
    ensures
        r@ == t@.subrange(a as int, b as int),
{
    let (_, rest) = t.split_at(a);
    let (mid, _) = rest.split_at(b - a);
    assert(mid@ =~= t@.subrange(a as int, b as int));
    mid
}

} // verus!
