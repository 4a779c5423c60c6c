//! Cookies as the protocol sees them: each `Set-Cookie` header line is
//! truncated to its leading `name=value` pair (everything before the first
//! ';', attributes discarded), and pairs are matched and unwrapped by name.
use vstd::prelude::*;
use crate::strutil::char_index;
use crate::strutil::seq_starts_with;
use crate::strutil::prefix_until;
use crate::strutil::suffix_from;
use crate::strutil::str_starts_with;
use vstd::string::StrSliceExecFns;

verus! {

/// The view of an optional owned string.
pub open spec fn opt_view(o: Option<String>) -> Option<Seq<char>> {
    match o {
        Option::Some(s) => Option::Some(s@),
        Option::None => Option::None,
    }
}

/// The `name=value` pair of a `Set-Cookie` line: everything before the first
/// ';' (the whole line if there is none).
pub open spec fn cookie_pair(line: Seq<char>) -> Seq<char> {
    line.subrange(0, char_index(line, ';') as int)
}

/// The pair `pair` carries the cookie called `name`.
pub open spec fn cookie_matches(pair: Seq<char>, name: Seq<char>) -> bool {
    &&& seq_starts_with(pair, name)
    &&& pair.len() > name.len()
    &&& pair[name.len() as int] == '='
}

/// The value part of a matching pair: what follows `name=`.
pub open spec fn cookie_value(pair: Seq<char>, name: Seq<char>) -> Seq<char> {
    pair.subrange(name.len() + 1 as int, pair.len() as int)
}

/// Truncates a `Set-Cookie` line to its `name=value` pair.
pub fn cookie_pair_of(line: &str) -> (r: String)
    ensures
        r@ == cookie_pair(line@),
{
    prefix_until(line, ';')
}

/// Whether an already-truncated `name=value` pair carries the cookie called
/// `name`.
pub fn pair_matches(pair: &str, name: &str) -> (r: bool)
    ensures
        r == cookie_matches(pair@, name@),
{
    let name_len = name.unicode_len();
    let pair_len = pair.unicode_len();
    if !str_starts_with(pair, name) {
        return false;
    }
    if pair_len <= name_len {
        return false;
    }
    pair.get_char(name_len) == '='
}

/// The value of the cookie called `name` on this line, if the line's pair
/// carries that cookie.
pub fn cookie_value_of(line: &str, name: &str) -> (r: Option<String>)
    ensures
        opt_view(r) == if cookie_matches(cookie_pair(line@), name@) {
            Option::Some(cookie_value(cookie_pair(line@), name@))
        } else {
            Option::<Seq<char>>::None
        },
{
    let pair = cookie_pair_of(line);
    let name_len = name.unicode_len();
    let pair_len = pair.as_str().unicode_len();
    if !str_starts_with(pair.as_str(), name) {
        return None;
    }
    if pair_len <= name_len {
        return None;
    }
    if pair.as_str().get_char(name_len) != '=' {
        return None;
    }
    let v = suffix_from(pair.as_str(), name_len + 1);
    Some(v)
}

} // verus!
