//! Reading the line-oriented text of /proc and /sys files.
//!
//! Text is handled as its UTF-8 bytes. A line starts at the beginning of the
//! text or after a `\n` (and the text's end starts no line); it runs up to the
//! next `\n`. Whitespace is ASCII whitespace (space, `\t`, `\n`, `\x0B`,
//! `\x0C`, `\r`), so a trailing `\r` never joins a token.
use vstd::prelude::*;
use vstd::string::StringSliceAdditionalSpecFns;

verus! {

pub open spec fn is_space(b: u8) -> bool {
    b == 32 || (9 <= b && b <= 13)
}

/// A line of `t` starts at `i`.
pub open spec fn is_line_start(t: Seq<u8>, i: int) -> bool {
    0 <= i < t.len() && (i == 0 || t[i - 1] == 10)
}

/// `t` holds `p` at position `i`.
pub open spec fn has_at(t: Seq<u8>, i: int, p: Seq<u8>) -> bool {
    0 <= i && i + p.len() <= t.len() && t.subrange(i, i + p.len()) == p
}

/// `t` holds `p` somewhere.
pub open spec fn contains(t: Seq<u8>, p: Seq<u8>) -> bool {
    exists|i: int| #[trigger] has_at(t, i, p)
}

/// End of the line that holds position `i`: the next `\n` at or after `i`, or the text's end.
pub open spec fn line_end(t: Seq<u8>, i: int) -> int
    decreases t.len() - i,
{
    if i < 0 || i >= t.len() || t[i] == 10 {
        if i < 0 { 0 } else { i }
    } else {
        line_end(t, i + 1)
    }
}

/// First position at or after `i`, before `end`, that is not whitespace (or `end`).
pub open spec fn skip_space(t: Seq<u8>, i: int, end: int) -> int
    decreases end - i,
{
    if i >= end || !is_space(t[i]) {
        i
    } else {
        skip_space(t, i + 1, end)
    }
}

/// First position at or after `i`, before `end`, that is whitespace (or `end`).
pub open spec fn skip_token(t: Seq<u8>, i: int, end: int) -> int
    decreases end - i,
{
    if i >= end || is_space(t[i]) {
        i
    } else {
        skip_token(t, i + 1, end)
    }
}

/// The second whitespace-separated token of the line that starts at `i`.
pub open spec fn second_token(t: Seq<u8>, i: int) -> Option<Seq<u8>> {
    let end = line_end(t, i);
    let t0 = skip_space(t, i, end);
    let e0 = skip_token(t, t0, end);
    let t1 = skip_space(t, e0, end);
    let e1 = skip_token(t, t1, end);
    if t1 >= end {
        None
    } else {
        Some(t.subrange(t1, e1))
    }
}

/// The first whitespace-separated token of the line that starts at `i` (maybe empty).
pub open spec fn first_token(t: Seq<u8>, i: int) -> Seq<u8> {
    let end = line_end(t, i);
    let t0 = skip_space(t, i, end);
    t.subrange(t0, skip_token(t, t0, end))
}

/// `t` holds `p` at `i`.
pub fn matches_at(t: &[u8], i: usize, p: &[u8]) -> (r: bool)
    ensures
        r == has_at(t@, i as int, p@),
{
    if i > t.len() || p.len() > t.len() - i {
        return false;
    }
    let mut k: usize = 0;
    while k < p.len()
        invariant
            i + p@.len() <= t@.len(),
            t@.len() <= usize::MAX,
            k <= p@.len(),
            forall|j: int| 0 <= j < k ==> t@[i + j] == p@[j],
        decreases p@.len() - k,
    {
        if t[i + k] != p[k] {
            assert(t@.subrange(i as int, i + p@.len())[k as int] != p@[k as int]);
            return false;
        }
        k = k + 1;
    }
    assert(t@.subrange(i as int, i + p@.len()) =~= p@);
    true
}

/// `t` holds `p` somewhere.
pub fn contains_bytes(t: &[u8], p: &[u8]) -> (r: bool)
    ensures
        r == contains(t@, p@),
{
    let mut i: usize = 0;
    while i < t.len()
        invariant
            i <= t@.len(),
            forall|j: int| 0 <= j < i ==> !#[trigger] has_at(t@, j, p@),
        decreases t@.len() - i,
    {
        if matches_at(t, i, p) {
            return true;
        }
        i = i + 1;
    }
    if matches_at(t, i, p) {
        return true;
    }
    assert forall|j: int| !#[trigger] has_at(t@, j, p@) by {
        if j > t@.len() {
            assert(!has_at(t@, j, p@));
        }
    }
    false
}

/// `s` holds `p` somewhere (as UTF-8 bytes).
pub fn str_contains(s: &str, p: &str) -> (r: bool)
    ensures
        r == contains(s.spec_bytes(), p.spec_bytes()),
{
    contains_bytes(s.as_bytes(), p.as_bytes())
}

/// End of the line that holds position `i`.
pub fn find_line_end(t: &[u8], i: usize) -> (r: usize)
    requires
        i <= t@.len(),
    ensures
        r == line_end(t@, i as int),
        i <= r <= t@.len(),
{
    let mut k = i;
    while k < t.len() && t[k] != 10
        invariant
            i <= k <= t@.len(),
            line_end(t@, k as int) == line_end(t@, i as int),
        decreases t@.len() - k,
    {
        k = k + 1;
    }
    k
}

/// First position in `[i, end)` that is not whitespace, or `end`.
pub fn find_non_space(t: &[u8], i: usize, end: usize) -> (r: usize)
    requires
        i <= end <= t@.len(),
    ensures
        r == skip_space(t@, i as int, end as int),
        i <= r <= end,
{
    let mut k = i;
    while k < end && is_space_byte(t[k])
        invariant
            i <= k <= end,
            end <= t@.len(),
            skip_space(t@, k as int, end as int) == skip_space(t@, i as int, end as int),
        decreases end - k,
    {
        k = k + 1;
    }
    k
}

/// First position in `[i, end)` that is whitespace, or `end`.
pub fn find_space(t: &[u8], i: usize, end: usize) -> (r: usize)
    requires
        i <= end <= t@.len(),
    ensures
        r == skip_token(t@, i as int, end as int),
        i <= r <= end,
{
    let mut k = i;
    while k < end && !is_space_byte(t[k])
        invariant
            i <= k <= end,
            end <= t@.len(),
            skip_token(t@, k as int, end as int) == skip_token(t@, i as int, end as int),
        decreases end - k,
    {
        k = k + 1;
    }
    k
}

pub fn is_space_byte(b: u8) -> (r: bool)
    ensures
        r == is_space(b),
{
    b == 32 || (9 <= b && b <= 13)
}

/// Bounds of the second token of the line that starts at `i`, if it has one.
pub fn second_token_bounds(t: &[u8], i: usize) -> (r: Option<(usize, usize)>)
    requires
        i <= t@.len(),
    ensures
        match r {
            Some((a, b)) => a <= b <= t@.len() && second_token(t@, i as int) == Some(
                t@.subrange(a as int, b as int),
            ),
            None => second_token(t@, i as int) is None,
        },
{
    let end = find_line_end(t, i);
    let t0 = find_non_space(t, i, end);
    let e0 = find_space(t, t0, end);
    let t1 = find_non_space(t, e0, end);
    let e1 = find_space(t, t1, end);
    if t1 >= end {
        None
    } else {
        Some((t1, e1))
    }
}

/// Bounds of the first token of the line that starts at `i` (maybe empty).
pub fn first_token_bounds(t: &[u8], i: usize) -> (r: (usize, usize))
    requires
        i <= t@.len(),
    ensures
        r.0 <= r.1 <= t@.len(),
        first_token(t@, i as int) == t@.subrange(r.0 as int, r.1 as int),
{
    let end = find_line_end(t, i);
    let t0 = find_non_space(t, i, end);
    let e0 = find_space(t, t0, end);
    (t0, e0)
}

/// First position in `[i, end)` that holds `b`, or `end`.
pub open spec fn find_from(t: Seq<u8>, i: int, end: int, b: u8) -> int
    decreases end - i,
{
    if i >= end || t[i] == b {
        i
    } else {
        find_from(t, i + 1, end, b)
    }
}

/// First position in `[i, end)` that holds `b`, or `end`.
pub fn find_byte(t: &[u8], i: usize, end: usize, b: u8) -> (r: usize)
    requires
        i <= end <= t@.len(),
    ensures
        r == find_from(t@, i as int, end as int, b),
        i <= r <= end,
{
    let mut k = i;
    while k < end && t[k] != b
        invariant
            i <= k <= end,
            end <= t@.len(),
            find_from(t@, k as int, end as int, b) == find_from(t@, i as int, end as int, b),
        decreases end - k,
    {
        k = k + 1;
    }
    k
}

/// Start of token `k` (counting from 0) of the text in `[i, end)`, or `end`.
pub open spec fn token_start(t: Seq<u8>, i: int, end: int, k: nat) -> int
    decreases k,
{
    if k == 0 {
        skip_space(t, i, end)
    } else {
        token_start(t, skip_token(t, skip_space(t, i, end), end), end, (k - 1) as nat)
    }
}

proof fn lemma_skip_bounds(t: Seq<u8>, i: int, end: int)
    requires
        0 <= i <= end <= t.len(),
    ensures
        i <= skip_space(t, i, end) <= end,
        i <= skip_token(t, i, end) <= end,
    decreases end - i,
{
    if i < end {
        lemma_skip_bounds(t, i + 1, end);
    }
}

/// Start of token `k` (counting from 0) of the text in `[i, end)`, or `end`.
pub fn find_token_start(t: &[u8], i: usize, end: usize, k: usize) -> (r: usize)
    requires
        i <= end <= t@.len(),
    ensures
        r == token_start(t@, i as int, end as int, k as nat),
        i <= r <= end,
{
    let mut cur = i;
    let mut left = k;
    while left > 0
        invariant
            i <= cur <= end <= t@.len(),
            token_start(t@, i as int, end as int, k as nat) == token_start(
                t@,
                cur as int,
                end as int,
                left as nat,
            ),
        decreases left,
    {
        let s = find_non_space(t, cur, end);
        cur = find_space(t, s, end);
        left = left - 1;
    }
    find_non_space(t, cur, end)
}

/// `a` and `b` hold the same bytes.
pub fn bytes_equal(a: &[u8], b: &[u8]) -> (r: bool)
    ensures
        r == (a@ == b@),
{
    if a.len() != b.len() {
        return false;
    }
    let r = matches_at(a, 0, b);
    assert(r ==> a@.subrange(0, b@.len() as int) =~= a@);
    assert(a@ == b@ ==> a@.subrange(0, b@.len() as int) =~= a@);
    r
}

/// Value of a digit in base `radix` (10 or 16), or -1 for a byte that is not one.
pub open spec fn digit_value(b: u8, radix: int) -> int {
    if 48 <= b <= 57 {
        b - 48
    } else if radix == 16 && 97 <= b <= 102 {
        b - 87
    } else if radix == 16 && 65 <= b <= 70 {
        b - 55
    } else {
        -1
    }
}

pub open spec fn all_digits(s: Seq<u8>, radix: int) -> bool {
    forall|i: int| 0 <= i < s.len() ==> #[trigger] digit_value(s[i], radix) >= 0
}

/// Value of a string of digits in base `radix`.
pub open spec fn digits_value(s: Seq<u8>, radix: int) -> int
    decreases s.len(),
{
    if s.len() == 0 {
        0
    } else {
        digits_value(s.drop_last(), radix) * radix + digit_value(s.last(), radix)
    }
}

/// A non-empty string of digits whose value is at most `max`.
pub open spec fn parse_digits(s: Seq<u8>, radix: int, max: int) -> Option<int> {
    if s.len() > 0 && all_digits(s, radix) && digits_value(s, radix) <= max {
        Some(digits_value(s, radix))
    } else {
        None
    }
}

/// An unsigned integer of at most `max`, in base `radix`, with an optional `+`
/// (as `from_str_radix` reads it).
pub open spec fn parse_unsigned(s: Seq<u8>, radix: int, max: int) -> Option<int> {
    if s.len() > 0 && s[0] == 43 {
        parse_digits(s.drop_first(), radix, max)
    } else {
        parse_digits(s, radix, max)
    }
}

/// A decimal `i32` with an optional sign.
pub open spec fn parse_i32(s: Seq<u8>) -> Option<int> {
    if s.len() > 0 && s[0] == 45 {
        match parse_digits(s.drop_first(), 10, 0x8000_0000) {
            Some(v) => Some(-v),
            None => None,
        }
    } else {
        parse_unsigned(s, 10, 0x7fff_ffff)
    }
}

proof fn lemma_digits_step(s: Seq<u8>, k: int, radix: int)
    requires
        0 <= k < s.len(),
    ensures
        digits_value(s.take(k + 1), radix) == digits_value(s.take(k), radix) * radix + digit_value(
            s[k],
            radix,
        ),
{
    assert(s.take(k + 1).drop_last() =~= s.take(k));
}

/// `t[a..b]` read by `parse_digits`.
pub fn read_digits(t: &[u8], a: usize, b: usize, radix: u64, max: u64) -> (r: Option<u64>)
    requires
        a <= b <= t@.len(),
        radix == 10 || radix == 16,
    ensures
        match parse_digits(t@.subrange(a as int, b as int), radix as int, max as int) {
            Some(v) => r is Some && r->0 == v,
            None => r is None,
        },
{
    let ghost s = t@.subrange(a as int, b as int);
    if a == b {
        return None;
    }
    let mut acc: u64 = 0;
    let mut over = false;
    let mut k = a;
    assert(s.take(0) =~= Seq::<u8>::empty());
    while k < b
        invariant
            a <= k <= b <= t@.len(),
            radix == 10 || radix == 16,
            s == t@.subrange(a as int, b as int),
            all_digits(s.take(k - a), radix as int),
            digits_value(s.take(k - a), radix as int) >= 0,
            !over ==> acc == digits_value(s.take(k - a), radix as int) && acc <= max,
            over ==> digits_value(s.take(k - a), radix as int) > max,
        decreases b - k,
    {
        let c = t[k];
        let d: u64 = if 48 <= c && c <= 57 {
            (c - 48) as u64
        } else if radix == 16 && 97 <= c && c <= 102 {
            (c - 87) as u64
        } else if radix == 16 && 65 <= c && c <= 70 {
            (c - 55) as u64
        } else {
            assert(digit_value(s[k - a], radix as int) < 0);
            assert(!all_digits(s, radix as int));
            return None;
        };
        proof {
            assert(s[k - a] == c);
            lemma_digits_step(s, k - a, radix as int);
            assert(s.take(k - a + 1).drop_last() =~= s.take(k - a));
            assert(all_digits(s.take(k - a + 1), radix as int));
            let v = digits_value(s.take(k - a), radix as int);
            assert(v * radix >= v) by (nonlinear_arith)
                requires
                    v >= 0,
                    radix >= 1,
            ;
        }
        if !over {
            let next = acc as u128 * radix as u128 + d as u128;
            if next > max as u128 {
                over = true;
            } else {
                acc = next as u64;
            }
        }
        k = k + 1;
    }
    assert(s.take(k - a) =~= s);
    if over {
        None
    } else {
        Some(acc)
    }
}

/// `t[a..b]` read as an unsigned integer of at most `max` (see `parse_unsigned`).
pub fn read_unsigned(t: &[u8], a: usize, b: usize, radix: u64, max: u64) -> (r: Option<u64>)
    requires
        a <= b <= t@.len(),
        radix == 10 || radix == 16,
    ensures
        match parse_unsigned(t@.subrange(a as int, b as int), radix as int, max as int) {
            Some(v) => r is Some && r->0 == v,
            None => r is None,
        },
{
    if a < b && t[a] == 43 {
        assert(t@.subrange(a as int, b as int).drop_first() =~= t@.subrange(a + 1, b as int));
        read_digits(t, a + 1, b, radix, max)
    } else {
        read_digits(t, a, b, radix, max)
    }
}

/// `t[a..b]` read as a decimal `i32` (see `parse_i32`).
pub fn read_i32(t: &[u8], a: usize, b: usize) -> (r: Option<i32>)
    requires
        a <= b <= t@.len(),
    ensures
        match parse_i32(t@.subrange(a as int, b as int)) {
            Some(v) => r is Some && r->0 == v,
            None => r is None,
        },
{
    if a < b && t[a] == 45 {
        assert(t@.subrange(a as int, b as int).drop_first() =~= t@.subrange(a + 1, b as int));
        let ghost body = t@.subrange(a + 1, b as int);
        match read_digits(t, a + 1, b, 10, 0x8000_0000) {
            Some(v) => {
                assert(parse_digits(body, 10, 0x8000_0000) is Some);
                assert(v <= 0x8000_0000);
                let n: i64 = 0 - v as i64;
                Some(n as i32)
            },
            None => None,
        }
    } else {
        match read_unsigned(t, a, b, 10, 0x7fff_ffff) {
            Some(v) => {
                assert(parse_unsigned(t@.subrange(a as int, b as int), 10, 0x7fff_ffff) is Some);
                Some(v as i32)
            },
            None => None,
        }
    }
}

} // verus!
