//! Semester identifiers as the surrounding application passes them around:
//! the academic form ("1" or "2", with legacy aliases) and the timetable
//! query form the portal expects.
use vstd::prelude::*;
use crate::strutil::str_eq;
use vstd::string::StrSliceExecFns;
use vstd::string::StringExecFns;

verus! {

/// ASCII whitespace, as semester aliases may carry it.
pub open spec fn is_space(c: char) -> bool {
    c == ' ' || c == '\t' || c == '\n' || c == '\r'
}

/// How many whitespace characters `s` starts with.
pub open spec fn ws_prefix_len(s: Seq<char>) -> nat
    decreases s.len(),
{
    if s.len() == 0 {
        0
    } else if !is_space(s[0]) {
        0
    } else {
        1 + ws_prefix_len(s.drop_first())
    }
}

/// How many whitespace characters `s` ends with.
pub open spec fn ws_suffix_len(s: Seq<char>) -> nat
    decreases s.len(),
{
    if s.len() == 0 {
        0
    } else if !is_space(s.last()) {
        0
    } else {
        1 + ws_suffix_len(s.drop_last())
    }
}

/// `s` with leading and trailing whitespace removed.
pub open spec fn trimmed(s: Seq<char>) -> Seq<char> {
    if ws_prefix_len(s) == s.len() {
        Seq::empty()
    } else {
        s.subrange(ws_prefix_len(s) as int, (s.len() - ws_suffix_len(s)) as int)
    }
}

proof fn lemma_ws_prefix(s: Seq<char>)
    ensures
        ws_prefix_len(s) <= s.len(),
        forall|j: int| 0 <= j < ws_prefix_len(s) ==> is_space(#[trigger] s[j]),
        ws_prefix_len(s) < s.len() ==> !is_space(s[ws_prefix_len(s) as int]),
    decreases s.len(),
{
    if s.len() > 0 && is_space(s[0]) {
        lemma_ws_prefix(s.drop_first());
        assert forall|j: int| 0 <= j < ws_prefix_len(s) implies is_space(#[trigger] s[j]) by {
            if j > 0 {
                assert(s.drop_first()[j - 1] == s[j]);
            }
        }
        if ws_prefix_len(s) < s.len() {
            assert(s.drop_first()[ws_prefix_len(s.drop_first()) as int] == s[ws_prefix_len(
                s,
            ) as int]);
        }
    }
}

proof fn lemma_ws_suffix(s: Seq<char>)
    ensures
        ws_suffix_len(s) <= s.len(),
        forall|j: int| s.len() - ws_suffix_len(s) <= j < s.len() ==> is_space(#[trigger] s[j]),
        ws_suffix_len(s) < s.len() ==> !is_space(s[s.len() - 1 - ws_suffix_len(s)]),
    decreases s.len(),
{
    if s.len() > 0 && is_space(s.last()) {
        lemma_ws_suffix(s.drop_last());
        assert forall|j: int| s.len() - ws_suffix_len(s) <= j < s.len() implies is_space(
            #[trigger] s[j],
        ) by {
            if j < s.len() - 1 {
                assert(s.drop_last()[j] == s[j]);
            } else {
                assert(s[j] == s.last());
            }
        }
        if ws_suffix_len(s) < s.len() {
            assert(s.drop_last()[s.drop_last().len() - 1 - ws_suffix_len(s.drop_last())] == s[s.len()
                - 1 - ws_suffix_len(s)]);
        }
    }
}

/// Whether `c` is ASCII whitespace.
fn is_space_char(c: char) -> (r: bool)
    ensures
        r == is_space(c),
{
    c == ' ' || c == '\t' || c == '\n' || c == '\r'
}

/// `s` with leading and trailing ASCII whitespace removed.
pub fn ascii_trim(s: &str) -> (r: String)
    ensures
        r@ == trimmed(s@),
{
    let n = s.unicode_len();
    let mut a: usize = 0;
    while a < n && is_space_char(s.get_char(a))
        invariant
            n == s@.len(),
            a <= n,
            forall|j: int| 0 <= j < a ==> is_space(#[trigger] s@[j]),
        decreases n - a,
    {
        a = a + 1;
    }
    proof {
        lemma_ws_prefix(s@);
    }
    if a == n {
        proof {
            assert(ws_prefix_len(s@) == n) by {
                if ws_prefix_len(s@) < n {
                    assert(is_space(s@[ws_prefix_len(s@) as int]));
                }
            }
        }
        return String::new();
    }
    proof {
        assert(ws_prefix_len(s@) == a) by {
            if ws_prefix_len(s@) < a {
                assert(is_space(s@[ws_prefix_len(s@) as int]));
            }
            if ws_prefix_len(s@) > a {
                assert(is_space(s@[a as int]));
            }
        }
    }
    let mut b: usize = n;
    while b > a + 1 && is_space_char(s.get_char(b - 1))
        invariant
            n == s@.len(),
            a < n,
            !is_space(s@[a as int]),
            a + 1 <= b <= n,
            forall|j: int| b <= j < n ==> is_space(#[trigger] s@[j]),
        decreases b,
    {
        b = b - 1;
    }
    proof {
        lemma_ws_suffix(s@);
        assert(ws_suffix_len(s@) == n - b) by {
            if ws_suffix_len(s@) < n - b {
                assert(!is_space(s@[s@.len() - 1 - ws_suffix_len(s@)]));
                assert(is_space(s@[s@.len() - 1 - ws_suffix_len(s@)]));
            }
            if ws_suffix_len(s@) > n - b {
                assert(is_space(s@[b - 1]));
                if b == a + 1 {
                    assert(is_space(s@[a as int]));
                }
            }
        }
    }
    let t = s.substring_char(a, b);
    String::from_str(t)
}

/// The academic semester an alias denotes: "1" and "3" mean the first
/// ("autumn-winter") semester, "2" and "12" the second ("spring-summer");
/// anything else is rejected.
pub open spec fn normalized_semester(s: Seq<char>) -> Option<Seq<char>> {
    let t = trimmed(s);
    if t == "1"@ || t == "3"@ {
        Option::Some("1"@)
    } else if t == "2"@ || t == "12"@ {
        Option::Some("2"@)
    } else {
        Option::None
    }
}

/// Normalizes a semester alias to its academic form, rejecting unknown
/// aliases.
pub fn normalize_academic_semester(semester: &str) -> (r: Option<&'static str>)
    ensures
        match r {
            Option::Some(v) => normalized_semester(semester@) == Option::Some(v@),
            Option::None => normalized_semester(semester@) is None,
        },
{
    let t = ascii_trim(semester);
    if str_eq(t.as_str(), "1") || str_eq(t.as_str(), "3") {
        Some("1")
    } else if str_eq(t.as_str(), "2") || str_eq(t.as_str(), "12") {
        Some("2")
    } else {
        None
    }
}

/// The timetable query value for an academic semester: the portal encodes
/// the second semester as "12" and everything else as "3".
pub fn to_timetable_semester(academic_semester: &str) -> (r: &'static str)
    ensures
        academic_semester@ == "2"@ ==> r@ == "12"@,
        academic_semester@ != "2"@ ==> r@ == "3"@,
{
    if str_eq(academic_semester, "2") {
        "12"
    } else {
        "3"
    }
}

} // verus!
