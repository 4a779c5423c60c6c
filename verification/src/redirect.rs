//! The shared redirect-following primitive: transport-and-header level only.
//! Each hop's response is judged by a pure step function — accumulate the
//! `Set-Cookie` pairs, stop when the chain ends or a caller-supplied rule is
//! satisfied, and fail once the hop ceiling is reached. The caller issues the
//! GET requests between steps; a bounded chain is guaranteed by the ceiling.
use vstd::prelude::*;
use crate::cookie::cookie_matches;
use crate::cookie::opt_view;
use crate::cookie::pair_matches;
use crate::errors::ProtocolFault;
use crate::strutil::seq_starts_with;
use crate::strutil::str_eq;
use crate::strutil::str_starts_with;
use crate::strutil::suffix_from;
use crate::sso::pairs_view;
use crate::sso::extend_with_pairs;
use vstd::string::StrSliceExecFns;
use vstd::string::StringExecFns;

verus! {

/// The hop ceiling: a redirect chain longer than this is treated as a loop.
pub const HOP_LIMIT: usize = 10;

/// The running state of a redirect chain: the URL to request next, every
/// cookie pair accumulated so far, and how many requests have been issued.
pub struct ChainState {
    pub url: String,
    pub cookies: Vec<String>,
    pub hops: usize,
}

/// The mathematical state of a redirect chain.
pub struct ChainView {
    pub url: Seq<char>,
    pub cookies: Seq<Seq<char>>,
    pub hops: nat,
}

impl View for ChainState {
    type V = ChainView;

    open spec fn view(&self) -> ChainView {
        ChainView { url: self.url@, cookies: self.cookies.deep_view(), hops: self.hops as nat }
    }
}

/// When to leave the chain early, besides its natural end.
pub enum StopRule {
    /// Follow until the chain ends or the ceiling is hit.
    UntilChainEnds,
    /// Stop once a cookie of the given name has been collected and the
    /// redirect target equals the given landing URL; both conditions
    /// together, so an intermediate, not-yet-authenticated redirect does not
    /// end the walk.
    LandingWithCookie { landing: String, cookie_name: String },
}

/// A cookie of the given name is among the accumulated pairs.
pub open spec fn has_cookie(cookies: Seq<Seq<char>>, name: Seq<char>) -> bool {
    exists|k: int| 0 <= k < cookies.len() && cookie_matches(#[trigger] cookies[k], name)
}

/// Whether the stop rule is satisfied by the accumulated cookies and the
/// redirect target of the current response.
pub open spec fn spec_rule_satisfied(rule: StopRule, cookies: Seq<Seq<char>>, loc: Seq<char>) -> bool {
    match rule {
        StopRule::UntilChainEnds => false,
        StopRule::LandingWithCookie { landing, cookie_name } => loc == landing@ && has_cookie(
            cookies,
            cookie_name@,
        ),
    }
}

/// A location with a downgraded scheme, normalized back to https.
pub open spec fn normalized(loc: Seq<char>) -> Seq<char> {
    if seq_starts_with(loc, "http://"@) {
        "https://"@ + loc.skip("http://"@.len() as int)
    } else {
        loc
    }
}

/// Normalizes a redirect target: an `http://` scheme becomes `https://`.
pub fn normalize_location(loc: &str) -> (r: String)
    ensures
        r@ == normalized(loc@),
{
    proof {
        reveal_strlit("http://");
        reveal_strlit("https://");
    }
    if str_starts_with(loc, "http://") {
        let rest = suffix_from(loc, 7);
        let mut out = String::new();
        out.append("https://");
        out.append(rest.as_str());
        proof {
            assert(out@ =~= "https://"@ + loc@.skip(7));
        }
        out
    } else {
        String::from_str(loc)
    }
}

/// Whether a cookie of the given name is among the accumulated pairs.
pub fn has_cookie_named(cookies: &Vec<String>, name: &str) -> (r: bool)
    ensures
        r == has_cookie(cookies.deep_view(), name@),
{
    let n = cookies.len();
    let mut i: usize = 0;
    while i < n
        invariant
            n == cookies@.len(),
            i <= n,
            forall|k: int| 0 <= k < i ==> !cookie_matches(#[trigger] cookies.deep_view()[k], name@),
        decreases n - i,
    {
        if pair_matches(cookies[i].as_str(), name) {
            proof {
                assert(cookie_matches(cookies.deep_view()[i as int], name@));
            }
            return true;
        }
        i = i + 1;
    }
    false
}

/// Whether the stop rule is satisfied.
pub fn rule_satisfied(rule: &StopRule, cookies: &Vec<String>, loc: &str) -> (r: bool)
    ensures
        r == spec_rule_satisfied(*rule, cookies.deep_view(), loc@),
{
    match rule {
        StopRule::UntilChainEnds => false,
        StopRule::LandingWithCookie { landing, cookie_name } => {
            if str_eq(loc, landing.as_str()) {
                has_cookie_named(cookies, cookie_name.as_str())
            } else {
                false
            }
        },
    }
}

/// What one response does to the chain.
pub enum ChainStepResult {
    /// Still following: issue the next GET to the state's URL, replaying the
    /// state's cookies.
    Proceed(ChainState),
    /// The response had no Location header: the chain ended here.
    Ended(ChainState),
    /// The stop rule was satisfied by this response.
    Stopped(ChainState),
    /// The hop ceiling was reached with the chain still redirecting.
    LoopDetected(ChainState),
}

/// The mathematical counterpart of one chain step's outcome.
pub enum ChainStepView {
    Proceed(ChainView),
    Ended(ChainView),
    Stopped(ChainView),
    LoopDetected(ChainView),
}

impl View for ChainStepResult {
    type V = ChainStepView;

    open spec fn view(&self) -> ChainStepView {
        match self {
            ChainStepResult::Proceed(s) => ChainStepView::Proceed(s@),
            ChainStepResult::Ended(s) => ChainStepView::Ended(s@),
            ChainStepResult::Stopped(s) => ChainStepView::Stopped(s@),
            ChainStepResult::LoopDetected(s) => ChainStepView::LoopDetected(s@),
        }
    }
}

/// One step of the chain, mathematically: accumulate the response's cookie
/// pairs; end if there is no redirect; stop if the rule is satisfied; fail
/// at the ceiling; otherwise follow the normalized target.
pub open spec fn spec_chain_step(
    v: ChainView,
    loc: Option<Seq<char>>,
    lines: Seq<Seq<char>>,
    rule: StopRule,
) -> ChainStepView {
    let cs = v.cookies + pairs_view(lines);
    match loc {
        Option::None => ChainStepView::Ended(ChainView { cookies: cs, ..v }),
        Option::Some(l) => if spec_rule_satisfied(rule, cs, l) {
            ChainStepView::Stopped(ChainView { cookies: cs, ..v })
        } else if v.hops + 1 >= HOP_LIMIT {
            ChainStepView::LoopDetected(ChainView { cookies: cs, hops: v.hops + 1, ..v })
        } else {
            ChainStepView::Proceed(
                ChainView { url: normalized(l), cookies: cs, hops: v.hops + 1 },
            )
        },
    }
}

/// Digests one response of a redirect chain: `location` is the response's
/// Location header, `set_cookies` its `Set-Cookie` lines.
pub fn chain_step(
    state: ChainState,
    location: Option<String>,
    set_cookies: &Vec<String>,
    rule: &StopRule,
) -> (r: ChainStepResult)
    requires
        state@.hops < HOP_LIMIT,
    ensures
        r@ == spec_chain_step(state@, opt_view(location), set_cookies.deep_view(), *rule),
{
    let ChainState { url, mut cookies, hops } = state;
    extend_with_pairs(&mut cookies, set_cookies);
    match location {
        None => ChainStepResult::Ended(ChainState { url, cookies, hops }),
        Some(loc) => {
            if rule_satisfied(rule, &cookies, loc.as_str()) {
                ChainStepResult::Stopped(ChainState { url, cookies, hops })
            } else if hops >= HOP_LIMIT - 1 {
                ChainStepResult::LoopDetected(ChainState { url, cookies, hops: hops + 1 })
            } else {
                ChainStepResult::Proceed(
                    ChainState { url: normalize_location(loc.as_str()), cookies, hops: hops + 1 },
                )
            }
        },
    }
}

/// The primitive's verdict on a terminal outcome: a chain that hit the hop
/// ceiling is a redirect loop; an ended or stopped chain yields its final
/// state, cookies and all.
pub fn chain_outcome(result: ChainStepResult) -> (r: Result<ChainState, ProtocolFault>)
    requires
        !(result@ is Proceed),
    ensures
        match result@ {
            ChainStepView::LoopDetected(_) => r == Err::<ChainState, ProtocolFault>(
                ProtocolFault::RedirectLoop,
            ),
            ChainStepView::Ended(v) | ChainStepView::Stopped(v) => r is Ok && r->Ok_0@ == v,
            ChainStepView::Proceed(_) => false,
        },
{
    match result {
        ChainStepResult::LoopDetected(_) => Err(ProtocolFault::RedirectLoop),
        ChainStepResult::Ended(s) => Ok(s),
        ChainStepResult::Stopped(s) => Ok(s),
        ChainStepResult::Proceed(s) => {
            proof {
                assert(false);
            }
            Ok(s)
        },
    }
}

/// The chain run out mathematically: responses are consumed one per step
/// until a terminal outcome; a `Proceed` result means the chain was still in
/// flight when the responses ran out.
pub open spec fn spec_chain_run(
    v: ChainView,
    resps: Seq<(Option<Seq<char>>, Seq<Seq<char>>)>,
    rule: StopRule,
) -> ChainStepView
    decreases resps.len(),
{
    if resps.len() == 0 {
        ChainStepView::Proceed(v)
    } else {
        let step = spec_chain_step(v, resps[0].0, resps[0].1, rule);
        match step {
            ChainStepView::Proceed(v2) => spec_chain_run(v2, resps.drop_first(), rule),
            _ => step,
        }
    }
}

/// The redirect-following primitive terminates within the hop ceiling: a
/// chain that has not yet exhausted its budget reaches a terminal outcome —
/// ended, stopped, or the ceiling fault — within its remaining budget of
/// responses, whatever the servers answer.
pub proof fn lemma_chain_terminates(
    v: ChainView,
    resps: Seq<(Option<Seq<char>>, Seq<Seq<char>>)>,
    rule: StopRule,
)
    requires
        v.hops < HOP_LIMIT,
        resps.len() >= HOP_LIMIT - v.hops,
    ensures
        !(spec_chain_run(v, resps, rule) is Proceed),
    decreases resps.len(),
{
    let step = spec_chain_step(v, resps[0].0, resps[0].1, rule);
    match step {
        ChainStepView::Proceed(v2) => {
            assert(v2.hops == v.hops + 1 && v2.hops < HOP_LIMIT);
            lemma_chain_terminates(v2, resps.drop_first(), rule);
        },
        _ => {},
    }
}

} // verus!
