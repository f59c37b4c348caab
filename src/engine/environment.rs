//! The environment's noise sources (CPU frequency governor, SMT) and the
//! factor by which they damp the score.
use vstd::prelude::*;
use vstd::string::StringSliceAdditionalSpecFns;

verus! {

/// Damping of a frequency governor, in thousandths: `performance` none;
/// `schedutil`, `ondemand` and `conservative` 700; `powersave` 500; any other
/// 900; an unknown governor none.
pub open spec fn governor_factor(governor: Option<Seq<u8>>) -> u32 {
    match governor {
        None => 1000,
        Some(g) => if g == "performance".spec_bytes() {
            1000
        } else if g == "schedutil".spec_bytes() || g == "ondemand".spec_bytes() || g
            == "conservative".spec_bytes() {
            700
        } else if g == "powersave".spec_bytes() {
            500
        } else {
            900
        },
    }
}

/// Damping of SMT in thousandths: 900 when active, none otherwise.
pub open spec fn smt_factor(smt_active: Option<bool>) -> u32 {
    if smt_active == Some(true) {
        900
    } else {
        1000
    }
}

/// The score-damping factor, in thousandths: the product of the two.
pub open spec fn adjustment_for(governor: Option<Seq<u8>>, smt_active: Option<bool>) -> u32 {
    (governor_factor(governor) * smt_factor(smt_active) / 1000) as u32
}

/// Number of warnings: one for a governor that scales the frequency
/// (`schedutil`, `ondemand`, `conservative`, `powersave`), one for active SMT.
pub open spec fn warning_count(governor: Option<Seq<u8>>, smt_active: Option<bool>) -> nat {
    (if governor_factor(governor) == 700 || governor_factor(governor) == 500 {
        1nat
    } else {
        0nat
    }) + if smt_active == Some(true) {
        1nat
    } else {
        0nat
    }
}

/// Environment state that affects how far timings can be trusted.
#[derive(Debug, Clone)]
pub struct EnvironmentState {
    /// CPU 0's frequency governor, if it could be read.
    pub cpu_governor: Option<String>,
    /// Whether SMT (Hyper-Threading) is active, if it could be read.
    pub smt_active: Option<bool>,
    /// Score damping in thousandths (1000: none).
    pub adjustment_factor: u32,
    /// Human-readable warnings about the environment.
    pub warnings: Vec<String>,
}

fn same_text(a: &str, b: &str) -> (r: bool)
    ensures
        r == (a.spec_bytes() == b.spec_bytes()),
{
    let x = a.as_bytes();
    let y = b.as_bytes();
    if x.len() != y.len() {
        return false;
    }
    let r = crate::parse::matches_at(x, 0, y);
    assert(r ==> x@.subrange(0, y@.len() as int) =~= x@);
    assert(x@ == y@ ==> x@.subrange(0, y@.len() as int) =~= x@);
    r
}

impl EnvironmentState {
    /// The state for a governor and an SMT reading, with its factor and warnings.
    pub fn from_readings(governor: Option<&str>, smt_active: Option<bool>) -> (r: EnvironmentState)
        ensures
            r.adjustment_factor == adjustment_for(
                match governor {
                    Some(g) => Some(g.spec_bytes()),
                    None => None,
                },
                smt_active,
            ),
            r.warnings@.len() == warning_count(
                match governor {
                    Some(g) => Some(g.spec_bytes()),
                    None => None,
                },
                smt_active,
            ),
            r.smt_active == smt_active,
            r.cpu_governor is Some == governor is Some,
            governor matches Some(g) ==> r.cpu_governor->0@ == g@,
    {
        let mut warnings: Vec<String> = Vec::new();
        let mut factor: u32 = 1000;
        let ghost gspec = match governor {
            Some(g) => Some(g.spec_bytes()),
            None => None,
        };
        let cpu_governor = match governor {
            Some(g) => {
                if same_text(g, "performance") {
                } else if same_text(g, "schedutil") || same_text(g, "ondemand") || same_text(
                    g,
                    "conservative",
                ) {
                    factor = 700;
                    let mut w = String::from_str("CPU governor '");
                    w.append(g);
                    w.append(
                        "' causes timing variance (consider: cpupower frequency-set -g performance)",
                    );
                    warnings.push(w);
                } else if same_text(g, "powersave") {
                    factor = 500;
                    warnings.push(
                        String::from_str("CPU governor 'powersave' causes significant timing variance"),
                    );
                } else {
                    factor = 900;
                }
                Some(g.to_owned())
            },
            None => None,
        };
        assert(factor == governor_factor(gspec));
        if smt_active == Some(true) {
            factor = factor * 9 / 10;
            warnings.push(
                String::from_str(
                    "SMT (Hyper-Threading) active - timing may have noise from sibling threads",
                ),
            );
        }
        EnvironmentState { cpu_governor, smt_active, adjustment_factor: factor, warnings }
    }
}

/// The factor is a function of the readings: two snapshots of an unchanged
/// system carry the same factor, and it is always in `(0, 1000]`.
pub proof fn lemma_adjustment_deterministic(
    g1: Option<Seq<u8>>,
    s1: Option<bool>,
    g2: Option<Seq<u8>>,
    s2: Option<bool>,
)
    requires
        g1 == g2,
        s1 == s2,
    ensures
        adjustment_for(g1, s1) == adjustment_for(g2, s2),
        0 < adjustment_for(g1, s1) <= 1000,
{
    let g = governor_factor(g1) as int;
    let s = smt_factor(s1) as int;
    assert(0 < g * s / 1000 <= 1000) by (nonlinear_arith)
        requires
            500 <= g <= 1000,
            900 <= s <= 1000,
    ;
}

} // verus!
