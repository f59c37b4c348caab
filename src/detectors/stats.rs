//! Summary statistics of cycle-count samples.
//!
//! Means, variances and coefficients of variation are rationals; they are
//! kept exact through the sample count, the sum and the sum of squares, and the
//! detectors ask threshold questions of them (`mean > t`, `cv > c`).
use vstd::prelude::*;
use vstd::relations::sorted_by;
use vstd::seq_lib::lemma_sorted_unique;

verus! {

/// Sum of the samples.
pub open spec fn sample_sum(s: Seq<u64>) -> int
    decreases s.len(),
{
    if s.len() == 0 {
        0
    } else {
        sample_sum(s.drop_last()) + s.last()
    }
}

/// Sum of the squares of the samples.
pub open spec fn sample_sum_sq(s: Seq<u64>) -> int
    decreases s.len(),
{
    if s.len() == 0 {
        0
    } else {
        sample_sum_sq(s.drop_last()) + s.last() * s.last()
    }
}

/// Smallest sample, 0 for none.
pub open spec fn sample_min(s: Seq<u64>) -> u64
    decreases s.len(),
{
    if s.len() == 0 {
        0
    } else if s.len() == 1 {
        s[0]
    } else if s.last() < sample_min(s.drop_last()) {
        s.last()
    } else {
        sample_min(s.drop_last())
    }
}

/// Largest sample, 0 for none.
pub open spec fn sample_max(s: Seq<u64>) -> u64
    decreases s.len(),
{
    if s.len() == 0 {
        0
    } else if s.len() == 1 {
        s[0]
    } else if s.last() > sample_max(s.drop_last()) {
        s.last()
    } else {
        sample_max(s.drop_last())
    }
}

/// The samples in ascending order.
pub open spec fn sorted_samples(s: Seq<u64>) -> Seq<u64> {
    s.sort_by(|a: u64, b: u64| a <= b)
}

/// Index of the `pct` percentile in `n` sorted samples: `floor(n * pct / 100)`.
pub open spec fn percentile_index(n: int, pct: int) -> int {
    n * pct / 100
}

/// The `pct` percentile of the samples, 0 for none.
pub open spec fn percentile(s: Seq<u64>, pct: int) -> u64 {
    if s.len() == 0 {
        0
    } else {
        sorted_samples(s)[percentile_index(s.len() as int, pct)]
    }
}

/// Two populations: the 95th percentile exceeds both five times the median and 1000.
pub open spec fn is_bimodal(p50: u64, p95: u64) -> bool {
    p95 > 5 * p50 && p95 > 1000
}

/// `mean > t` for a sample count and sum (the mean of no samples is 0).
pub open spec fn mean_gt(n: int, sum: int, t: int) -> bool {
    if n == 0 {
        0 > t
    } else {
        sum > t * n
    }
}

/// `mean < t` for a sample count and sum (the mean of no samples is 0).
pub open spec fn mean_lt(n: int, sum: int, t: int) -> bool {
    if n == 0 {
        0 < t
    } else {
        sum < t * n
    }
}

/// `cv > c`, where `cv = stddev / mean` (0 when the mean is 0). With the
/// population variance `sum_sq / n - mean^2` this is `n * sum_sq > (1 + c^2) * sum^2`.
pub open spec fn cv_gt(n: int, sum: int, sum_sq: int, c: int) -> bool {
    if n == 0 || sum == 0 {
        0 > c
    } else {
        n * sum_sq > (1 + c * c) * (sum * sum)
    }
}

/// `n * a > k * s`, decided without forming either product.
pub(crate) fn scaled_gt(n: u64, a: u128, k: u128, s: u128) -> (r: bool)
    requires
        k <= u64::MAX,
    ensures
        r == (n * a > k * s),
{
    if n == 0 {
        return false;
    }
    let q = s / n as u128;
    let rem = s % n as u128;
    proof {
        assert(rem < n);
        assert(k * rem <= u64::MAX as int * u64::MAX as int) by (nonlinear_arith)
            requires
                k <= u64::MAX,
                rem < n,
                n <= u64::MAX,
        ;
    }
    let t = (k * rem) / n as u128;
    let kq = k.checked_mul(q);
    let ghost (ni, si, ki, qi, ri, ai) = (n as int, s as int, k as int, q as int, rem as int, a as int);
    let ghost bound = (ki * si) / ni;
    proof {
        assert(si == qi * ni + ri) by (nonlinear_arith)
            requires
                qi == si / ni,
                ri == si % ni,
                ni > 0,
        ;
        assert(ki * si == (ki * qi) * ni + ki * ri) by (nonlinear_arith)
            requires
                si == qi * ni + ri,
        ;
        assert(ki * qi >= 0 && ki * ri >= 0) by (nonlinear_arith)
            requires
                ki >= 0,
                qi >= 0,
                ri >= 0,
        ;
        lemma_div_split(ki * qi, ki * ri, ni);
        assert(bound == ki * qi + t);
        assert(ki * si >= 0);
        lemma_gt_floor(ni, ai, ki * si);
    }
    match kq {
        Some(kq) => {
            match kq.checked_add(t) {
                Some(b) => a > b,
                None => false,
            }
        },
        None => {
            proof {
                assert(ki * qi <= bound);
            }
            false
        },
    }
}

/// `(m * n + r) / n == m + r / n` for non-negative `m`, `r` and positive `n`.
proof fn lemma_div_split(m: int, r: int, n: int)
    requires
        m >= 0,
        r >= 0,
        n > 0,
    ensures
        (m * n + r) / n == m + r / n,
{
    vstd::arithmetic::div_mod::lemma_hoist_over_denominator(r, m, n as nat);
    assert(m * n == n * m) by (nonlinear_arith);
    assert(r + m * n == m * n + r);
}

/// `n * a > b` exactly when `a > floor(b / n)`.
proof fn lemma_gt_floor(n: int, a: int, b: int)
    requires
        n > 0,
        a >= 0,
        b >= 0,
    ensures
        (n * a > b) == (a > b / n),
{
    let q = b / n;
    let r = b % n;
    assert(b == q * n + r && 0 <= r < n) by (nonlinear_arith)
        requires
            q == b / n,
            r == b % n,
            n > 0,
    ;
    assert(n * (q + 1) == n * q + n && q * n == n * q) by (nonlinear_arith);
    if a > q {
        assert(n * a >= n * (q + 1)) by (nonlinear_arith)
            requires
                a >= q + 1,
                n > 0,
        ;
    } else {
        assert(n * a <= n * q) by (nonlinear_arith)
            requires
                a <= q,
                n > 0,
        ;
    }
}

pub(crate) proof fn lemma_prefix_sum_le(s: Seq<u64>, i: int)
    requires
        0 <= i <= s.len(),
    ensures
        sample_sum(s.take(i)) <= sample_sum(s),
        0 <= sample_sum(s.take(i)),
    decreases s.len(),
{
    if i == s.len() {
        assert(s.take(i) =~= s);
        lemma_sum_nonneg(s);
    } else {
        assert(s.take(i) =~= s.drop_last().take(i));
        lemma_prefix_sum_le(s.drop_last(), i);
    }
}

proof fn lemma_sum_nonneg(s: Seq<u64>)
    ensures
        0 <= sample_sum(s),
    decreases s.len(),
{
    if s.len() > 0 {
        lemma_sum_nonneg(s.drop_last());
    }
}

/// Sum, sum of squares, minimum and maximum of the samples.
fn moments(samples: &[u64]) -> (r: (u64, u128, u64, u64))
    requires
        sample_sum(samples@) <= u64::MAX,
    ensures
        r.0 == sample_sum(samples@),
        r.1 == sample_sum_sq(samples@),
        r.2 == sample_min(samples@),
        r.3 == sample_max(samples@),
{
    let mut sum: u64 = 0;
    let mut sum_sq: u128 = 0;
    let mut min: u64 = 0;
    let mut max: u64 = 0;
    let mut i: usize = 0;
    assert(samples@.take(0) =~= Seq::<u64>::empty());
    while i < samples.len()
        invariant
            i <= samples@.len(),
            sample_sum(samples@) <= u64::MAX,
            sum == sample_sum(samples@.take(i as int)),
            sum_sq == sample_sum_sq(samples@.take(i as int)),
            sum_sq <= sum * sum,
            min == sample_min(samples@.take(i as int)),
            max == sample_max(samples@.take(i as int)),
        decreases samples@.len() - i,
    {
        let x = samples[i];
        let ghost pre = samples@.take(i as int);
        let ghost next = samples@.take(i + 1);
        proof {
            assert(next.drop_last() =~= pre);
            assert(next.last() == x);
            lemma_prefix_sum_le(samples@, i + 1);
        }
        let ghost (su, sq, xi) = (sum as int, sum_sq as int, x as int);
        proof {
            assert(sq + xi * xi <= (su + xi) * (su + xi)) by (nonlinear_arith)
                requires
                    sq <= su * su,
                    su >= 0,
                    xi >= 0,
            ;
            assert((su + xi) * (su + xi) <= u64::MAX as int * u64::MAX as int) by (nonlinear_arith)
                requires
                    0 <= su + xi <= u64::MAX,
            ;
        }
        sum = sum + x;
        sum_sq = sum_sq + (x as u128) * (x as u128);
        if i == 0 || x < min {
            min = x;
        }
        if i == 0 || x > max {
            max = x;
        }
        i = i + 1;
    }
    assert(samples@.take(i as int) =~= samples@);
    (sum, sum_sq, min, max)
}

/// Statistics of a set of cycle-count samples.
#[derive(Debug, Clone, Copy, PartialEq, Eq, Structural)]
pub struct TimingStats {
    pub samples: usize,
    pub sum: u64,
    pub sum_sq: u128,
    pub min: u64,
    pub max: u64,
}

impl TimingStats {
    /// The statistics are those of `s`.
    pub open spec fn describes(self, s: Seq<u64>) -> bool {
        &&& self.samples == s.len()
        &&& self.sum == sample_sum(s)
        &&& self.sum_sq == sample_sum_sq(s)
        &&& self.min == sample_min(s)
        &&& self.max == sample_max(s)
    }

    /// The statistics of `s`.
    pub open spec fn spec_of(s: Seq<u64>) -> TimingStats {
        TimingStats {
            samples: s.len() as usize,
            sum: sample_sum(s) as u64,
            sum_sq: sample_sum_sq(s) as u128,
            min: sample_min(s),
            max: sample_max(s),
        }
    }

    /// Statistics that describe `s` are `spec_of(s)`.
    pub proof fn lemma_spec_of(t: TimingStats, s: Seq<u64>)
        requires
            t.describes(s),
        ensures
            t == TimingStats::spec_of(s),
    {
    }

    /// Statistics of `samples`; all zero for none. The sum of the samples must
    /// fit in a `u64`.
    pub fn from_samples(samples: &[u64]) -> (r: TimingStats)
        requires
            sample_sum(samples@) <= u64::MAX,
        ensures
            r.describes(samples@),
    {
        let (sum, sum_sq, min, max) = moments(samples);
        TimingStats { samples: samples.len(), sum, sum_sq, min, max }
    }

    /// `mean > t`.
    pub fn mean_exceeds(&self, t: u64) -> (r: bool)
        ensures
            r == mean_gt(self.samples as int, self.sum as int, t as int),
    {
        self.samples > 0 && self.sum as u128 > wide_mul(t, self.samples as u64)
    }

    /// `mean < t`.
    pub fn mean_below(&self, t: u64) -> (r: bool)
        ensures
            r == mean_lt(self.samples as int, self.sum as int, t as int),
    {
        if self.samples == 0 {
            t > 0
        } else {
            (self.sum as u128) < wide_mul(t, self.samples as u64)
        }
    }

    /// `cv > c`.
    pub fn cv_exceeds(&self, c: u64) -> (r: bool)
        requires
            c <= 1000,
        ensures
            r == cv_gt(self.samples as int, self.sum as int, self.sum_sq as int, c as int),
    {
        cv_exceeds(self.samples, self.sum, self.sum_sq, c)
    }

    /// The mean, rounded down.
    pub fn mean_floor(&self) -> (r: u64)
        ensures
            self.samples > 0 ==> r == self.sum as int / self.samples as int,
            self.samples == 0 ==> r == 0,
    {
        if self.samples == 0 {
            0
        } else {
            self.sum / self.samples as u64
        }
    }
}

/// `a * b`, which always fits in a `u128`.
fn wide_mul(a: u64, b: u64) -> (r: u128)
    ensures
        r == a * b,
{
    assert(a * b <= u64::MAX as int * u64::MAX as int) by (nonlinear_arith)
        requires
            a <= u64::MAX,
            b <= u64::MAX,
    ;
    a as u128 * b as u128
}

fn cv_exceeds(samples: usize, sum: u64, sum_sq: u128, c: u64) -> (r: bool)
    requires
        c <= 1000,
    ensures
        r == cv_gt(samples as int, sum as int, sum_sq as int, c as int),
{
    if samples == 0 || sum == 0 {
        return false;
    }
    assert(sum * sum <= u64::MAX as int * u64::MAX as int) by (nonlinear_arith)
        requires
            sum <= u64::MAX,
    ;
    assert(c * c <= 1000 * 1000) by (nonlinear_arith)
        requires
            c <= 1000,
    ;
    scaled_gt(samples as u64, sum_sq, 1 + c as u128 * c as u128, sum as u128 * sum as u128)
}

/// Relies on `slice::sort_unstable`: afterwards the slice holds the same
/// elements, in ascending order.
#[verifier::external_body]
fn sort_ascending(v: &mut [u64])
    ensures
        final(v)@.len() == old(v)@.len(),
        final(v)@.to_multiset() == old(v)@.to_multiset(),
        sorted_by(final(v)@, |a: u64, b: u64| a <= b),
{
    v.sort_unstable();
}

/// Statistics of the timings of one instruction kind, with percentiles.
#[derive(Debug, Clone)]
pub struct JitterStats {
    pub instruction: String,
    pub samples: usize,
    pub sum: u64,
    pub sum_sq: u128,
    pub min: u64,
    pub max: u64,
    pub p50: u64,
    pub p95: u64,
    pub p99: u64,
    /// Two distinct populations (see `is_bimodal`).
    pub bimodal: bool,
}

impl JitterStats {
    /// The numbers are those of `s`.
    pub open spec fn describes(self, s: Seq<u64>) -> bool {
        &&& self.samples == s.len()
        &&& self.sum == sample_sum(s)
        &&& self.sum_sq == sample_sum_sq(s)
        &&& self.min == sample_min(s)
        &&& self.max == sample_max(s)
        &&& self.p50 == percentile(s, 50)
        &&& self.p95 == percentile(s, 95)
        &&& self.p99 == percentile(s, 99)
        &&& self.bimodal == is_bimodal(self.p50, self.p95)
    }

    /// Statistics of `samples`, labelled `instruction`; the slice is left
    /// sorted. All numbers are zero, and `bimodal` false, for no samples. The
    /// sum of the samples must fit in a `u64`.
    pub fn from_samples(instruction: &str, samples: &mut [u64]) -> (r: JitterStats)
        requires
            sample_sum(old(samples)@) <= u64::MAX,
        ensures
            r.describes(old(samples)@),
            r.instruction@ == instruction@,
            final(samples)@ == sorted_samples(old(samples)@),
    {
        let (sum, sum_sq, min, max) = moments(samples);
        let n = samples.len();
        let ghost orig = samples@;
        sort_ascending(samples);
        proof {
            let leq = |a: u64, b: u64| a <= b;
            assert(vstd::relations::total_ordering(leq));
            orig.lemma_sort_by_ensures(leq);
            lemma_sorted_unique(samples@, sorted_samples(orig), leq);
        }
        if n == 0 {
            return JitterStats {
                instruction: instruction.to_owned(),
                samples: 0,
                sum,
                sum_sq,
                min,
                max,
                p50: 0,
                p95: 0,
                p99: 0,
                bimodal: false,
            };
        }
        let i50 = n / 2;
        let i95 = ((n as u128 * 95) / 100) as usize;
        let i99 = ((n as u128 * 99) / 100) as usize;
        assert(n * 95 / 100 < n && n * 99 / 100 < n) by (nonlinear_arith)
            requires
                n > 0,
        ;
        let p50 = samples[i50];
        let p95 = samples[i95];
        let p99 = samples[i99];
        let bimodal = p95 as u128 > p50 as u128 * 5 && p95 > 1000;
        JitterStats {
            instruction: instruction.to_owned(),
            samples: n,
            sum,
            sum_sq,
            min,
            max,
            p50,
            p95,
            p99,
            bimodal,
        }
    }

    /// `mean > t`.
    pub fn mean_exceeds(&self, t: u64) -> (r: bool)
        ensures
            r == mean_gt(self.samples as int, self.sum as int, t as int),
    {
        self.samples > 0 && self.sum as u128 > wide_mul(t, self.samples as u64)
    }

    /// `cv > c`.
    pub fn cv_exceeds(&self, c: u64) -> (r: bool)
        requires
            c <= 1000,
        ensures
            r == cv_gt(self.samples as int, self.sum as int, self.sum_sq as int, c as int),
    {
        cv_exceeds(self.samples, self.sum, self.sum_sq, c)
    }

    /// The mean, rounded down.
    pub fn mean_floor(&self) -> (r: u64)
        ensures
            self.samples > 0 ==> r == self.sum as int / self.samples as int,
            self.samples == 0 ==> r == 0,
    {
        if self.samples == 0 {
            0
        } else {
            self.sum / self.samples as u64
        }
    }
}

/// The statistics of a sample vector are a function of it: two results for
/// the same samples agree in every number.
pub proof fn lemma_jitter_stats_deterministic(a: JitterStats, b: JitterStats, s: Seq<u64>)
    requires
        a.describes(s),
        b.describes(s),
    ensures
        a.samples == b.samples && a.sum == b.sum && a.sum_sq == b.sum_sq,
        a.min == b.min && a.max == b.max,
        a.p50 == b.p50 && a.p95 == b.p95 && a.p99 == b.p99,
        a.bimodal == b.bimodal,
{
}

/// No samples: every number is zero and the distribution is not bimodal.
pub proof fn lemma_empty_samples(t: TimingStats, j: JitterStats)
    requires
        t.describes(Seq::<u64>::empty()),
        j.describes(Seq::<u64>::empty()),
    ensures
        t.samples == 0 && t.sum == 0 && t.sum_sq == 0 && t.min == 0 && t.max == 0,
        j.samples == 0 && j.sum == 0 && j.sum_sq == 0 && j.min == 0 && j.max == 0,
        j.p50 == 0 && j.p95 == 0 && j.p99 == 0,
        !j.bimodal,
        !mean_gt(0, 0, 0) && !cv_gt(0, 0, 0, 0),
{
}

} // verus!
