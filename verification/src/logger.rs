//! The logger's one decision: which log targets this crate's logger
//! reports. Formatting and printing happen outside the crate.

use vstd::prelude::*;

verus! {

/// Whether `s` starts with `prefix`.
pub open spec fn spec_starts_with(s: Seq<char>, prefix: Seq<char>) -> bool {
    s.len() >= prefix.len() && s.subrange(0, prefix.len() as int) == prefix
}

/// Whether the text `s` starts with `prefix`.
pub fn str_starts_with(s: &str, prefix: &str) -> (r: bool)
    ensures
        r == spec_starts_with(s@, prefix@),
{
    let n = s.unicode_len();
    let p = prefix.unicode_len();
    if n < p {
        return false;
    }
    let mut i: usize = 0;
    while i < p
        invariant
            0 <= i <= p,
            p <= n,
            n == s@.len(),
            p == prefix@.len(),
            forall|k: int| 0 <= k < i ==> s@[k] == prefix@[k],
        decreases p - i,
    {
        if s.get_char(i) != prefix.get_char(i) {
            proof {
                assert(s@.subrange(0, p as int)[i as int] != prefix@[i as int]);
            }
            return false;
        }
        i += 1;
    }
    proof {
        assert(s@.subrange(0, p as int) =~= prefix@);
    }
    true
}

/// The daemon's logger. It reports only records whose target starts with
/// the crate's own name, so library consumers' logging passes through
/// untouched.
pub struct SimpleLogger;

impl SimpleLogger {
    /// Whether a record with this target is reported.
    pub fn enabled(&self, target: &str) -> (r: bool)
        ensures
            r == spec_starts_with(target@, "cldpip"@),
    {
        str_starts_with(target, "cldpip")
    }
}

} // verus!
