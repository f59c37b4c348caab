//! What a verdict leads to.
use vstd::prelude::*;
use crate::engine::policy::Verdict;

verus! {

/// Exit status after an instrumented verdict.
pub const EXIT_INSTRUMENTED: i32 = 0xC0DE;

/// Exit status after a deceptive verdict.
pub const EXIT_DECEPTIVE: i32 = 0xDEAD;

/// How the program answers a verdict.
#[derive(Debug, Clone, Copy, PartialEq, Eq, Structural)]
pub enum Response {
    /// Go on normally.
    Proceed,
    /// Go on after a deliberate delay.
    Throttle,
    /// Misdirect, then exit with the given status.
    Terminate(i32),
}

pub open spec fn response_for(v: Verdict) -> Response {
    match v {
        Verdict::Clean => Response::Proceed,
        Verdict::Suspicious => Response::Throttle,
        Verdict::Instrumented => Response::Terminate(EXIT_INSTRUMENTED),
        Verdict::Deceptive => Response::Terminate(EXIT_DECEPTIVE),
    }
}

/// How to answer each verdict. Proceed when clean, throttle when suspicious,
/// exit `0xC0DE` when instrumented and `0xDEAD` when deceptive.
pub fn apply_response(verdict: Verdict) -> (r: Response)
    ensures
        r == response_for(verdict),
{
    match verdict {
        Verdict::Clean => Response::Proceed,
        Verdict::Suspicious => Response::Throttle,
        Verdict::Instrumented => Response::Terminate(EXIT_INSTRUMENTED),
        Verdict::Deceptive => Response::Terminate(EXIT_DECEPTIVE),
    }
}

/// The misdirecting busy work: the wrapping sum of `0..1_000_000`.
pub fn fake_computation() -> (r: u64)
    ensures
        r == 499_999_500_000,
{
    let mut x: u64 = 0;
    let mut i: u64 = 0;
    while i < 1_000_000
        invariant
            i <= 1_000_000,
            x == i * (i - 1) / 2,
        decreases 1_000_000 - i,
    {
        assert((i + 1) * i / 2 == i * (i - 1) / 2 + i) by (nonlinear_arith)
            requires
                i >= 0,
        ;
        assert(i * (i - 1) / 2 + i <= 1_000_000 * 1_000_000) by (nonlinear_arith)
            requires
                0 <= i < 1_000_000,
        ;
        x = x.wrapping_add(i);
        i = i + 1;
    }
    x
}

} // verus!
