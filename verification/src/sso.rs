//! The SSO login flow's decision logic, one verified step per server
//! response: extract the one-time execution token from the login page, parse
//! the public-key document, build the form-encoded submission, and judge the
//! submission response by the identity cookie it sets. The I/O between steps
//! is the caller's; every step here is a pure function of the response data.
use vstd::prelude::*;
use crate::cipher::cipher_output;
use crate::cipher::encrypt_password;
use crate::cookie::cookie_matches;
use crate::cookie::cookie_pair;
use crate::cookie::cookie_value;
use crate::cookie::cookie_pair_of;
use crate::cookie::cookie_value_of;
use crate::cookie::opt_view;
use crate::errors::ProtocolFault;
use crate::errors::SsoError;
use crate::hexnum::hex_to_nat;
use crate::hexnum::is_hex_str;
use crate::store::SessionStore;
use crate::store::after_login_success;
use crate::store::after_login_failure;
use crate::store::store_wf;
use crate::strutil::char_index;
use crate::strutil::lemma_char_index;
use crate::strutil::matches_at;
use crate::strutil::str_matches_at;
use crate::strutil::join_with;
use crate::strutil::join_strings;
use vstd::string::StrSliceExecFns;
use vstd::string::StringExecFns;
use vstd::string::StringSliceAdditionalSpecFns;

verus! {

/// The marker whose quoted value is the one-time execution token.
pub open spec fn exec_marker() -> Seq<char> {
    "name=\"execution\" value=\""@
}

/// A full token occurrence starts at `i`: the marker matches there and a
/// closing quote follows a non-empty run of non-quote characters.
pub open spec fn full_match_at(s: Seq<char>, i: int) -> bool {
    let st = i + exec_marker().len();
    let tail = s.skip(st);
    &&& matches_at(s, exec_marker(), i)
    &&& char_index(tail, '"') < tail.len()
    &&& char_index(tail, '"') > 0
}

/// The first position at or after `i` where a full token occurrence starts.
pub open spec fn first_match_from(s: Seq<char>, i: nat) -> Option<nat>
    decreases s.len() - i,
    when i <= s.len()
{
    if i >= s.len() {
        Option::None
    } else if full_match_at(s, i as int) {
        Option::Some(i)
    } else {
        first_match_from(s, i + 1)
    }
}

/// The execution token of a login page: the quoted value at the first full
/// occurrence of the marker, if any.
pub open spec fn execution_token(s: Seq<char>) -> Option<Seq<char>> {
    match first_match_from(s, 0) {
        Option::Some(i) => {
            let st = i + exec_marker().len();
            let q = st + char_index(s.skip(st as int), '"');
            Option::Some(s.subrange(st as int, q as int))
        },
        Option::None => Option::None,
    }
}

proof fn lemma_first_match_skip(s: Seq<char>, i: nat)
    requires
        i <= s.len(),
        forall|t: int| 0 <= t < i ==> !full_match_at(s, t),
    ensures
        first_match_from(s, 0) == first_match_from(s, i),
    decreases i,
{
    if i > 0 {
        lemma_first_match_skip(s, (i - 1) as nat);
        assert(first_match_from(s, (i - 1) as nat) == first_match_from(s, i));
    }
}

proof fn lemma_first_match_characterize(s: Seq<char>, i: nat)
    requires
        i <= s.len(),
    ensures
        match first_match_from(s, i) {
            Option::Some(j) => i <= j < s.len() && full_match_at(s, j as int),
            Option::None => forall|t: int| i <= t < s.len() ==> !full_match_at(s, t),
        },
    decreases s.len() - i,
{
    if i < s.len() && !full_match_at(s, i as int) {
        lemma_first_match_characterize(s, i + 1);
    }
}

/// Extracts the one-time execution token from the login page body: the first
/// quoted, non-empty value following the marker attribute, as the login-page
/// grammar guarantees it.
pub fn extract_execution(body: &str) -> (r: Option<String>)
    ensures
        opt_view(r) == execution_token(body@),
{
    let marker = "name=\"execution\" value=\"";
    let n = body.unicode_len();
    let m = marker.unicode_len();
    proof {
        reveal_strlit("name=\"execution\" value=\"");
        assert(m >= 1);
    }
    if m > n {
        proof {
            lemma_first_match_characterize(body@, 0);
            if first_match_from(body@, 0) is Some {
                let j = first_match_from(body@, 0)->0;
                assert(full_match_at(body@, j as int));
                assert(false);
            }
        }
        return None;
    }
    let mut i: usize = 0;
    while i <= n - m
        invariant
            n == body@.len(),
            m == marker@.len(),
            marker@ == exec_marker(),
            1 <= m <= n,
            i <= n - m + 1,
            forall|t: int| 0 <= t < i ==> !full_match_at(body@, t),
        decreases n - m + 1 - i,
    {
        if str_matches_at(body, marker, i) {
            let st = i + m;
            let mut j: usize = st;
            while j < n && body.get_char(j) != '"'
                invariant
                    n == body@.len(),
                    st <= j <= n,
                    forall|t: int| st <= t < j ==> body@[t] != '"',
                decreases n - j,
            {
                j = j + 1;
            }
            proof {
                let tail = body@.skip(st as int);
                lemma_char_index(tail, '"');
                assert(forall|t: int| 0 <= t < tail.len() ==> tail[t] == body@[st + t]);
                if j < n {
                    assert(body@[j as int] == '"');
                    assert(char_index(tail, '"') == j - st) by {
                        if char_index(tail, '"') < j - st {
                            assert(tail[char_index(tail, '"') as int] == '"');
                            assert(body@[st + char_index(tail, '"')] != '"');
                        }
                        if char_index(tail, '"') > j - st {
                            assert(tail[j - st] != '"');
                        }
                    }
                } else {
                    assert(char_index(tail, '"') == tail.len()) by {
                        if char_index(tail, '"') < tail.len() {
                            assert(tail[char_index(tail, '"') as int] == '"');
                            assert(body@[st + char_index(tail, '"')] != '"');
                        }
                    }
                }
            }
            if j < n && j > st {
                proof {
                    assert(full_match_at(body@, i as int));
                    lemma_first_match_skip(body@, i as nat);
                    assert(first_match_from(body@, i as nat) == Option::Some(i as nat));
                }
                let tok = body.substring_char(st, j);
                return Some(String::from_str(tok));
            }
            proof {
                assert(!full_match_at(body@, i as int));
            }
        }
        i = i + 1;
    }
    proof {
        lemma_first_match_skip(body@, i as nat);
        lemma_first_match_characterize(body@, i as nat);
        if first_match_from(body@, i as nat) is Some {
            let j = first_match_from(body@, i as nat)->0;
            assert(full_match_at(body@, j as int));
            assert(j + exec_marker().len() <= body@.len());
            assert(false);
        }
    }
    None
}

/// The `name=value` pairs of a sequence of `Set-Cookie` lines.
pub open spec fn pairs_view(lines: Seq<Seq<char>>) -> Seq<Seq<char>> {
    Seq::new(lines.len(), |i: int| cookie_pair(lines[i]))
}

/// Truncates each `Set-Cookie` line to its `name=value` pair.
pub fn collect_pairs(lines: &Vec<String>) -> (r: Vec<String>)
    ensures
        r.deep_view() == pairs_view(lines.deep_view()),
{
    let mut out: Vec<String> = Vec::new();
    let n = lines.len();
    let mut i: usize = 0;
    while i < n
        invariant
            n == lines@.len(),
            i <= n,
            out.deep_view() =~= pairs_view(lines.deep_view().subrange(0, i as int)),
        decreases n - i,
    {
        let ghost prev_elems: Seq<String> = out@;
        let ghost prev_dv: Seq<Seq<char>> = out.deep_view();
        let pair = cookie_pair_of(lines[i].as_str());
        let ghost pair_v: Seq<char> = pair@;
        out.push(pair);
        proof {
            let dv = lines.deep_view();
            assert(prev_dv.len() == prev_elems.len());
            assert(prev_dv == pairs_view(dv.subrange(0, i as int)));
            assert(prev_elems.len() == i);
            assert(out@ == prev_elems.push(out@[i as int]));
            assert forall|k: int| 0 <= k < i + 1 implies out.deep_view()[k] == cookie_pair(
                #[trigger] dv.subrange(0, (i + 1) as int)[k],
            ) by {
                assert(out.deep_view()[k] == out@[k].deep_view());
                if k < i {
                    assert(out@[k] == prev_elems[k]);
                    assert(prev_dv[k] == prev_elems[k].deep_view());
                    assert(prev_dv[k] == pairs_view(dv.subrange(0, i as int))[k]);
                }
            }
            assert(out.deep_view() =~= pairs_view(dv.subrange(0, (i + 1) as int)));
        }
        i = i + 1;
    }
    proof {
        assert(lines.deep_view().subrange(0, n as int) =~= lines.deep_view());
        assert(out.deep_view() =~= pairs_view(lines.deep_view()));
    }
    out
}

/// Appends the pairs of freshly received `Set-Cookie` lines to an
/// accumulated cookie list.
pub fn extend_with_pairs(cookies: &mut Vec<String>, lines: &Vec<String>)
    ensures
        final(cookies).deep_view() == old(cookies).deep_view() + pairs_view(lines.deep_view()),
{
    let n = lines.len();
    let mut i: usize = 0;
    while i < n
        invariant
            n == lines@.len(),
            i <= n,
            cookies.deep_view() =~= old(cookies).deep_view() + pairs_view(
                lines.deep_view().subrange(0, i as int),
            ),
        decreases n - i,
    {
        let ghost prev_elems: Seq<String> = cookies@;
        let ghost prev_dv: Seq<Seq<char>> = cookies.deep_view();
        let ghost base: Seq<Seq<char>> = old(cookies).deep_view();
        cookies.push(cookie_pair_of(lines[i].as_str()));
        proof {
            let dv = lines.deep_view();
            let target = base + pairs_view(dv.subrange(0, (i + 1) as int));
            assert(cookies@ == prev_elems.push(cookies@[cookies@.len() - 1]));
            assert(prev_dv.len() == base.len() + i);
            assert forall|k: int| 0 <= k < cookies@.len() implies cookies.deep_view()[k]
                == #[trigger] target[k] by {
                assert(cookies.deep_view()[k] == cookies@[k].deep_view());
                if k < prev_dv.len() {
                    assert(cookies@[k] == prev_elems[k]);
                    assert(prev_dv[k] == prev_elems[k].deep_view());
                    assert(prev_dv[k] == (base + pairs_view(dv.subrange(0, i as int)))[k]);
                }
            }
            assert(cookies.deep_view() =~= target);
        }
        i = i + 1;
    }
    proof {
        assert(lines.deep_view().subrange(0, n as int) =~= lines.deep_view());
        assert(cookies.deep_view() =~= old(cookies).deep_view() + pairs_view(lines.deep_view()));
    }
}

/// What the first response of the flow yields: the one-time execution token
/// and the session-tracking cookies set before authentication.
pub struct LoginPageData {
    pub execution: String,
    pub cookies: Vec<String>,
}

/// Digests the login page response: extracts the execution token and keeps
/// the cookies the server set. A page without the token marker is fatal
/// protocol drift, not a credential problem.
pub fn on_login_page(body: &str, set_cookies: &Vec<String>) -> (r: Result<LoginPageData, SsoError>)
    ensures
        r is Ok <==> execution_token(body@) is Some,
        r is Err ==> r == Err::<LoginPageData, SsoError>(
            SsoError::Protocol(ProtocolFault::MissingExecutionToken),
        ),
        r is Ok ==> r->Ok_0.execution@ == execution_token(body@)->0,
        r is Ok ==> r->Ok_0.cookies.deep_view() == pairs_view(set_cookies.deep_view()),
{
    match extract_execution(body) {
        Some(execution) => Ok(LoginPageData { execution, cookies: collect_pairs(set_cookies) }),
        None => Err(SsoError::Protocol(ProtocolFault::MissingExecutionToken)),
    }
}

/// What a JSON object document holds as a string under a key; a function of
/// the document and the key alone.
pub uninterp spec fn json_str_field(body: Seq<char>, key: Seq<char>) -> Option<Seq<char>>;

/// Relies on serde_json::from_str and serde_json::Value::get / Value::as_str:
/// the string held under a key of a JSON document, None when the document
/// does not parse, lacks the key, or holds a non-string there.
#[verifier::external_body]
fn json_string_field(body: &str, key: &str) -> (r: Option<String>)
    ensures
        opt_view(r) == json_str_field(body@, key@),
{
    let doc: serde_json::Value = match serde_json::from_str(body) {
        Ok(v) => v,
        Err(_) => return None,
    };
    doc.get(key).and_then(|v| v.as_str()).map(|s| s.to_string())
}

/// The server-supplied public-key parameters: modulus and exponent, both
/// arbitrary-precision numbers encoded as hexadecimal strings.
pub struct PublicKeyParams {
    pub modulus: String,
    pub exponent: String,
}

/// Digests the public-key response: a JSON document carrying `modulus` and
/// `exponent` string fields; either one absent is fatal protocol drift.
pub fn parse_public_key(body: &str) -> (r: Result<PublicKeyParams, SsoError>)
    ensures
        r is Ok <==> json_str_field(body@, "modulus"@) is Some && json_str_field(
            body@,
            "exponent"@,
        ) is Some,
        json_str_field(body@, "modulus"@) is None ==> r == Err::<PublicKeyParams, SsoError>(
            SsoError::Protocol(ProtocolFault::MissingModulus),
        ),
        json_str_field(body@, "modulus"@) is Some && json_str_field(body@, "exponent"@) is None
            ==> r == Err::<PublicKeyParams, SsoError>(
            SsoError::Protocol(ProtocolFault::MissingExponent),
        ),
        r is Ok ==> r->Ok_0.modulus@ == json_str_field(body@, "modulus"@)->0
            && r->Ok_0.exponent@ == json_str_field(body@, "exponent"@)->0,
{
    let modulus = match json_string_field(body, "modulus") {
        Some(m) => m,
        None => return Err(SsoError::Protocol(ProtocolFault::MissingModulus)),
    };
    let exponent = match json_string_field(body, "exponent") {
        Some(e) => e,
        None => return Err(SsoError::Protocol(ProtocolFault::MissingExponent)),
    };
    Ok(PublicKeyParams { modulus, exponent })
}

/// The exact form encoding the SSO endpoint expects on submission.
pub open spec fn form_encoding(user: Seq<char>, cipher: Seq<char>, execution: Seq<char>) -> Seq<
    char,
> {
    "username="@ + user + "&password="@ + cipher + "&execution="@ + execution
        + "&_eventId=submit&rememberMe=true"@
}

/// The submission request: the form-encoded body and the Cookie header value
/// replaying every cookie accumulated so far.
pub struct SubmissionRequest {
    pub form_body: String,
    pub cookie_header: String,
}

/// Builds the login submission: encrypts the password with the server's key
/// and assembles the form body and the replayed cookies. Fails exactly when
/// the key parameters are not usable hexadecimal numbers.
pub fn prepare_submission(
    username: &str,
    password: &str,
    execution: &str,
    key: &PublicKeyParams,
    cookies: &Vec<String>,
) -> (r: Result<SubmissionRequest, SsoError>)
    ensures
        r is Ok <==> is_hex_str(key.modulus@) && is_hex_str(key.exponent@) && hex_to_nat(
            key.modulus@,
        ) > 0,
        r is Err ==> r == Err::<SubmissionRequest, SsoError>(
            SsoError::Protocol(ProtocolFault::BadPublicKey),
        ),
        r is Ok ==> exists|ct: Seq<char>|
            cipher_output(password.spec_bytes(), key.exponent@, key.modulus@, ct)
                && r->Ok_0.form_body@ == form_encoding(username@, ct, execution@),
        r is Ok ==> r->Ok_0.cookie_header@ == join_with(cookies.deep_view(), "; "@),
{
    let cipher = match encrypt_password(password, key.modulus.as_str(), key.exponent.as_str()) {
        Ok(c) => c,
        Err(_) => return Err(SsoError::Protocol(ProtocolFault::BadPublicKey)),
    };
    let mut form_body = String::new();
    form_body.append("username=");
    form_body.append(username);
    form_body.append("&password=");
    form_body.append(cipher.as_str());
    form_body.append("&execution=");
    form_body.append(execution);
    form_body.append("&_eventId=submit&rememberMe=true");
    let cookie_header = join_strings(cookies, "; ");
    proof {
        assert(form_body@ =~= form_encoding(username@, cipher@, execution@));
        assert(cipher_output(password.spec_bytes(), key.exponent@, key.modulus@, cipher@));
    }
    Ok(SubmissionRequest { form_body, cookie_header })
}

/// The name of the identity cookie the SSO sets on success.
pub open spec fn identity_cookie_name() -> Seq<char> {
    "iPlanetDirectoryPro"@
}

/// The identity cookie value set by a response: the value of the last
/// `Set-Cookie` line carrying a non-empty cookie of the identity name.
pub open spec fn identity_cookie_in(lines: Seq<Seq<char>>) -> Option<Seq<char>>
    decreases lines.len(),
{
    if lines.len() == 0 {
        Option::None
    } else {
        let pair = cookie_pair(lines.last());
        if cookie_matches(pair, identity_cookie_name()) && cookie_value(
            pair,
            identity_cookie_name(),
        ).len() > 0 {
            Option::Some(cookie_value(pair, identity_cookie_name()))
        } else {
            identity_cookie_in(lines.drop_last())
        }
    }
}

/// Judges the submission response. Success is signalled solely by a
/// non-empty identity cookie among the `Set-Cookie` lines: if present, the
/// store records it with the username and the cookie value is returned; if
/// absent, the credentials were rejected and the store is left untouched.
pub fn on_submission(set_cookies: &Vec<String>, username: &str, store: &mut SessionStore) -> (r:
    Result<String, SsoError>)
    ensures
        r is Ok <==> identity_cookie_in(set_cookies.deep_view()) is Some,
        r is Ok ==> r->Ok_0@ == identity_cookie_in(set_cookies.deep_view())->0,
        r is Ok ==> final(store)@ == after_login_success(old(store)@, r->Ok_0@, username@),
        r is Err ==> r == Err::<String, SsoError>(SsoError::Authentication) && final(store)@
            == after_login_failure(old(store)@),
        store_wf(old(store)@) ==> store_wf(final(store)@),
{
    let n = set_cookies.len();
    let mut found: Option<String> = None;
    let mut i: usize = 0;
    while i < n
        invariant
            n == set_cookies@.len(),
            i <= n,
            opt_view(found) == identity_cookie_in(set_cookies.deep_view().subrange(0, i as int)),
        decreases n - i,
    {
        match cookie_value_of(set_cookies[i].as_str(), "iPlanetDirectoryPro") {
            Some(v) => {
                if !v.as_str().is_empty() {
                    found = Some(v);
                }
            },
            None => {},
        }
        proof {
            let dv = set_cookies.deep_view();
            assert(dv.subrange(0, (i + 1) as int).drop_last() =~= dv.subrange(0, i as int));
            assert(dv.subrange(0, (i + 1) as int).last() == dv[i as int]);
        }
        i = i + 1;
    }
    proof {
        assert(set_cookies.deep_view().subrange(0, n as int) =~= set_cookies.deep_view());
    }
    match found {
        Some(cookie) => {
            let value = cookie.clone();
            store.record_identity(cookie, String::from_str(username));
            Ok(value)
        },
        None => Err(SsoError::Authentication),
    }
}

} // verus!
