//! Coexisting with debuggers: the tracer of the process, read once and cached,
//! and the mode in which detectors that conflict with a debugger stand down.
use vstd::prelude::*;
use vstd::string::StringSliceAdditionalSpecFns;
use crate::parse::{is_line_start, has_at, second_token, parse_unsigned, matches_at, second_token_bounds, read_unsigned};

verus! {

/// The tag of the tracer line of a process status text.
pub open spec fn tracer_pid_tag() -> Seq<u8> {
    "TracerPid:".spec_bytes()
}

/// The tracer PID that a status text gives, looking from position `from` on:
/// the first line tagged `TracerPid:` that has a second token decides, and a
/// token that is no `u32` reads as 0; with no such line, 0.
pub open spec fn tracer_pid_from(t: Seq<u8>, from: int) -> u32
    decreases t.len() - from,
{
    if from < 0 || from >= t.len() {
        0
    } else if is_line_start(t, from) && has_at(t, from, tracer_pid_tag()) && second_token(
        t,
        from,
    ) is Some {
        match parse_unsigned(second_token(t, from)->0, 10, u32::MAX as int) {
            Some(v) => v as u32,
            None => 0,
        }
    } else {
        tracer_pid_from(t, from + 1)
    }
}

/// The tracer PID recorded in a process status text (0: none).
pub fn tracer_pid_from_status(status: &str) -> (r: u32)
    ensures
        r == tracer_pid_from(status.spec_bytes(), 0),
{
    let t = status.as_bytes();
    let tag = "TracerPid:".as_bytes();
    let mut i: usize = 0;
    while i < t.len()
        invariant
            i <= t@.len(),
            tag@ == tracer_pid_tag(),
            t@ == status.spec_bytes(),
            tracer_pid_from(t@, 0) == tracer_pid_from(t@, i as int),
        decreases t@.len() - i,
    {
        if (i == 0 || t[i - 1] == 10) && matches_at(t, i, tag) {
            match second_token_bounds(t, i) {
                Some((a, b)) => {
                    assert(is_line_start(t@, i as int));
                    let v = read_unsigned(t, a, b, 10, u32::MAX as u64);
                    let ghost tok = t@.subrange(a as int, b as int);
                    assert(second_token(t@, i as int)->0 == tok);
                    let res: u32 = match v {
                        Some(p) => {
                            assert(parse_unsigned(tok, 10, u32::MAX as int) is Some);
                            p as u32
                        },
                        None => 0,
                    };
                    return res;
                },
                None => {},
            }
        }
        i = i + 1;
    }
    0
}

/// Process-wide debugger-compatibility state: the cached tracer PID (none
/// until first read) and whether compatible mode is on.
pub struct SignalCompat {
    tracer_pid: Option<u32>,
    compat_mode: bool,
}

impl SignalCompat {
    /// The cached tracer PID, if it was read.
    pub closed spec fn cached_tracer(self) -> Option<u32> {
        self.tracer_pid
    }

    pub closed spec fn compat(self) -> bool {
        self.compat_mode
    }

    /// Nothing cached; compatible mode off.
    pub fn new() -> (r: SignalCompat)
        ensures
            r.cached_tracer() is None,
            !r.compat(),
    {
        SignalCompat { tracer_pid: None, compat_mode: false }
    }

    /// The tracer PID (0: none). The first call, and the first after
    /// `invalidate_tracer_cache`, takes it from `read` and caches it; later
    /// calls return the cached value and do not call `read`.
    pub fn get_tracer_pid<F: FnOnce() -> u32>(&mut self, read: F) -> (r: u32)
        requires
            read.requires(()),
        ensures
            old(self).cached_tracer() matches Some(p) ==> r == p && *final(self) == *old(self),
            old(self).cached_tracer() is None ==> read.ensures((), r),
            final(self).cached_tracer() == Some(r),
            final(self).compat() == old(self).compat(),
    {
        match self.tracer_pid {
            Some(p) => p,
            None => {
                let p = read();
                self.tracer_pid = Some(p);
                p
            },
        }
    }

    /// A tracer is attached (see `get_tracer_pid`).
    pub fn has_tracer<F: FnOnce() -> u32>(&mut self, read: F) -> (r: bool)
        requires
            read.requires(()),
        ensures
            final(self).cached_tracer() matches Some(p) && r == (p > 0),
            old(self).cached_tracer() is Some ==> *final(self) == *old(self),
            old(self).cached_tracer() is None ==> read.ensures((), final(self).cached_tracer()->0),
            final(self).compat() == old(self).compat(),
    {
        self.get_tracer_pid(read) > 0
    }

    /// Turn on debugger-compatible mode: detectors that conflict with a
    /// debugger stand down.
    pub fn enable_gdb_compat_mode(&mut self)
        ensures
            final(self).compat(),
            final(self).cached_tracer() == old(self).cached_tracer(),
    {
        self.compat_mode = true;
    }

    pub fn is_gdb_compat_mode(&self) -> (r: bool)
        ensures
            r == self.compat(),
    {
        self.compat_mode
    }

    /// Forget the cached tracer PID, so that the next query reads it again.
    pub fn invalidate_tracer_cache(&mut self)
        ensures
            final(self).cached_tracer() is None,
            final(self).compat() == old(self).compat(),
    {
        self.tracer_pid = None;
    }
}

} // verus!
