//! The retake policy the GPA computation is parameterized by. The arithmetic
//! itself lives with the surrounding application; the policy keyword and its
//! parsing belong here.
use vstd::prelude::*;
use crate::strutil::str_eq;

verus! {

/// Which attempt of a retaken course counts: the first one taken, or the one
/// with the highest grade.
#[derive(Clone, Copy, Debug, PartialEq, Eq, Structural)]
pub enum RetakePolicy {
    First,
    Highest,
}

impl RetakePolicy {
    /// Parses a policy keyword: "highest" and "best" select `Highest`;
    /// anything else falls back to `First`.
    pub fn from_str(s: &str) -> (r: RetakePolicy)
        ensures
            r == (if s@ == "highest"@ || s@ == "best"@ {
                RetakePolicy::Highest
            } else {
                RetakePolicy::First
            }),
    {
        if str_eq(s, "highest") || str_eq(s, "best") {
            RetakePolicy::Highest
        } else {
            RetakePolicy::First
        }
    }
}

} // verus!
