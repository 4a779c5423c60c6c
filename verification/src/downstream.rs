//! The two downstream session derivers. Both exchange the SSO identity
//! cookie for a service-local session, but by different protocols: the
//! academic-affairs portal answers one CAS redirect and must set exactly two
//! cookies (a session id scoped to its application path, and a load-balancer
//! routing cookie), while the courseware portal is walked through a bounded
//! redirect chain until its landing page is reached with a session cookie in
//! hand. The asymmetry is deliberate: the services implement SSO trust
//! differently, and unifying the two walks would silently break one of them.
use vstd::prelude::*;
use crate::cookie::cookie_matches;
use crate::cookie::cookie_pair;
use crate::cookie::cookie_pair_of;
use crate::cookie::opt_view;
use crate::cookie::pair_matches;
use crate::errors::DeriveError;
use crate::errors::ProtocolFault;
use crate::redirect::ChainState;
use crate::redirect::ChainStepResult;
use crate::redirect::StopRule;
use crate::redirect::normalized;
use crate::redirect::normalize_location;
use crate::store::SessionStore;
use crate::store::ServiceId;
use crate::store::StoreView;
use crate::store::store_wf;
use crate::strutil::seq_contains;
use crate::strutil::str_contains;
use vstd::string::StrSliceExecFns;
use vstd::string::StringExecFns;

verus! {

/// The Cookie header value that replays the identity cookie.
pub open spec fn identity_header_of(cookie: Seq<char>) -> Seq<char> {
    "iPlanetDirectoryPro="@ + cookie
}

/// Builds the Cookie header replaying the store's identity cookie; the
/// starting point of either deriver, refused when SSO has not succeeded.
pub fn identity_header(store: &SessionStore) -> (r: Result<String, DeriveError>)
    ensures
        r is Ok <==> store@.identity_cookie is Some,
        r is Err ==> r == Err::<String, DeriveError>(DeriveError::NotAuthenticated),
        r is Ok ==> r->Ok_0@ == identity_header_of(store@.identity_cookie->0),
{
    match store.get_identity_cookie() {
        Some(cookie) => {
            let mut out = String::new();
            out.append("iPlanetDirectoryPro=");
            out.append(cookie.as_str());
            proof {
                assert(out@ =~= identity_header_of(store@.identity_cookie->0));
            }
            Ok(out)
        },
        None => Err(DeriveError::NotAuthenticated),
    }
}

/// Digests the CAS response of the academic-affairs derivation: the SSO must
/// answer with a redirect toward the service; its absence is protocol drift.
/// The target's scheme is normalized before it is followed.
pub fn affairs_on_cas_response(location: Option<String>) -> (r: Result<String, DeriveError>)
    ensures
        r is Ok <==> location is Some,
        r is Err ==> r == Err::<String, DeriveError>(
            DeriveError::Protocol(ProtocolFault::MissingRedirect),
        ),
        r is Ok ==> r->Ok_0@ == normalized(location->0@),
{
    match location {
        Some(loc) => Ok(normalize_location(loc.as_str())),
        None => Err(DeriveError::Protocol(ProtocolFault::MissingRedirect)),
    }
}

/// The cookie names and path marker the academic-affairs response must show.
pub open spec fn affairs_session_name() -> Seq<char> {
    "JSESSIONID"@
}

pub open spec fn affairs_route_name() -> Seq<char> {
    "route"@
}

pub open spec fn affairs_path_marker() -> Seq<char> {
    "/jwglxt"@
}

/// A `Set-Cookie` line carrying the session id the portal's application path
/// is scoped to: the pair is a JSESSIONID and the line names the path.
pub open spec fn is_affairs_session_line(line: Seq<char>) -> bool {
    cookie_matches(cookie_pair(line), affairs_session_name()) && seq_contains(
        line,
        affairs_path_marker(),
    )
}

/// The last session-id pair among the response's `Set-Cookie` lines.
pub open spec fn affairs_session_in(lines: Seq<Seq<char>>) -> Option<Seq<char>>
    decreases lines.len(),
{
    if lines.len() == 0 {
        Option::None
    } else if is_affairs_session_line(lines.last()) {
        Option::Some(cookie_pair(lines.last()))
    } else {
        affairs_session_in(lines.drop_last())
    }
}

/// The last routing pair among the response's `Set-Cookie` lines.
pub open spec fn affairs_route_in(lines: Seq<Seq<char>>) -> Option<Seq<char>>
    decreases lines.len(),
{
    if lines.len() == 0 {
        Option::None
    } else if cookie_matches(cookie_pair(lines.last()), affairs_route_name()) {
        Option::Some(cookie_pair(lines.last()))
    } else {
        affairs_route_in(lines.drop_last())
    }
}

/// Digests the academic-affairs response after the CAS redirect was
/// followed: both the path-scoped session id and the routing cookie are
/// required; on success both pairs enter the store together.
pub fn affairs_on_service_response(set_cookies: &Vec<String>, store: &mut SessionStore) -> (r:
    Result<(), DeriveError>)
    ensures
        r is Ok <==> old(store)@.identity_cookie is Some && affairs_session_in(
            set_cookies.deep_view(),
        ) is Some && affairs_route_in(set_cookies.deep_view()) is Some,
        old(store)@.identity_cookie is None ==> r == Err::<(), DeriveError>(
            DeriveError::NotAuthenticated,
        ),
        old(store)@.identity_cookie is Some && affairs_session_in(set_cookies.deep_view()) is None
            ==> r == Err::<(), DeriveError>(
            DeriveError::Protocol(ProtocolFault::MissingAffairsSession),
        ),
        old(store)@.identity_cookie is Some && affairs_session_in(set_cookies.deep_view()) is Some
            && affairs_route_in(set_cookies.deep_view()) is None ==> r == Err::<(), DeriveError>(
            DeriveError::Protocol(ProtocolFault::MissingAffairsRoute),
        ),
        r is Ok ==> final(store)@ == (StoreView {
            affairs_session: Option::Some(affairs_session_in(set_cookies.deep_view())->0),
            affairs_route: Option::Some(affairs_route_in(set_cookies.deep_view())->0),
            ..old(store)@
        }),
        r is Err ==> final(store)@ == old(store)@,
        store_wf(old(store)@) ==> store_wf(final(store)@),
{
    if store.get_identity_cookie().is_none() {
        return Err(DeriveError::NotAuthenticated);
    }
    let n = set_cookies.len();
    let mut session: Option<String> = None;
    let mut route: Option<String> = None;
    let mut i: usize = 0;
    while i < n
        invariant
            n == set_cookies@.len(),
            i <= n,
            opt_view(session) == affairs_session_in(set_cookies.deep_view().subrange(0, i as int)),
            opt_view(route) == affairs_route_in(set_cookies.deep_view().subrange(0, i as int)),
        decreases n - i,
    {
        let line = set_cookies[i].as_str();
        let pair = cookie_pair_of(line);
        if pair_matches(pair.as_str(), "JSESSIONID") && str_contains(line, "/jwglxt") {
            session = Some(pair);
        } else if pair_matches(pair.as_str(), "route") {
            route = Some(pair);
        }
        proof {
            reveal_strlit("JSESSIONID");
            reveal_strlit("route");
            let dv = set_cookies.deep_view();
            assert(dv.subrange(0, (i + 1) as int).drop_last() =~= dv.subrange(0, i as int));
            assert(dv.subrange(0, (i + 1) as int).last() == dv[i as int]);
            assert(!(cookie_matches(pair@, affairs_session_name()) && cookie_matches(
                pair@,
                affairs_route_name(),
            ))) by {
                if cookie_matches(pair@, affairs_session_name()) && cookie_matches(
                    pair@,
                    affairs_route_name(),
                ) {
                    assert(pair@[5] == affairs_session_name()[5]);
                    assert(pair@[5] == '=');
                }
            }
        }
        i = i + 1;
    }
    proof {
        assert(set_cookies.deep_view().subrange(0, n as int) =~= set_cookies.deep_view());
    }
    let sid = match session {
        Some(s) => s,
        None => return Err(DeriveError::Protocol(ProtocolFault::MissingAffairsSession)),
    };
    let rt = match route {
        Some(t) => t,
        None => return Err(DeriveError::Protocol(ProtocolFault::MissingAffairsRoute)),
    };
    store.record_affairs(sid, rt);
    Ok(())
}

/// The Cookie header for the academic-affairs portal's own requests: the
/// stored session id and routing pair, joined as a header value.
pub fn zdbk_cookies(state_jsid: &str, state_route: &str) -> (r: String)
    ensures
        r@ == state_jsid@ + "; "@ + state_route@,
{
    let mut out = String::new();
    out.append(state_jsid);
    out.append("; ");
    out.append(state_route);
    proof {
        assert(out@ =~= state_jsid@ + "; "@ + state_route@);
    }
    out
}

/// The courseware portal's index page, which is also the chain's landing URL.
pub open spec fn courseware_landing() -> Seq<char> {
    "https://courses.zju.edu.cn/user/index"@
}

/// The name of the courseware session cookie.
pub open spec fn courseware_session_name() -> Seq<char> {
    "session"@
}

/// Starts the courseware derivation: a fresh chain aimed at the portal's
/// index page, carrying the identity cookie as its only request cookie;
/// refused when SSO has not succeeded.
pub fn courseware_begin(store: &SessionStore) -> (r: Result<ChainState, DeriveError>)
    ensures
        r is Ok <==> store@.identity_cookie is Some,
        r is Err ==> r == Err::<ChainState, DeriveError>(DeriveError::NotAuthenticated),
        r is Ok ==> r->Ok_0@.url == courseware_landing() && r->Ok_0@.cookies == seq![
            identity_header_of(store@.identity_cookie->0),
        ] && r->Ok_0@.hops == 0,
{
    let header = match identity_header(store) {
        Ok(h) => h,
        Err(e) => return Err(e),
    };
    let mut cookies: Vec<String> = Vec::new();
    cookies.push(header);
    let state = ChainState {
        url: String::from_str("https://courses.zju.edu.cn/user/index"),
        cookies,
        hops: 0,
    };
    proof {
        assert(state@.cookies =~= seq![identity_header_of(store@.identity_cookie->0)]);
    }
    Ok(state)
}

/// The courseware chain's stop rule: its landing URL reached with a session
/// cookie collected.
pub fn courseware_stop_rule() -> (r: StopRule)
    ensures
        r matches StopRule::LandingWithCookie { landing, cookie_name } && landing@
            == courseware_landing() && cookie_name@ == courseware_session_name(),
{
    StopRule::LandingWithCookie {
        landing: String::from_str("https://courses.zju.edu.cn/user/index"),
        cookie_name: String::from_str("session"),
    }
}

/// The last session pair among the chain's accumulated cookies.
pub open spec fn courseware_session_in(cookies: Seq<Seq<char>>) -> Option<Seq<char>>
    decreases cookies.len(),
{
    if cookies.len() == 0 {
        Option::None
    } else if cookie_matches(cookies.last(), courseware_session_name()) {
        Option::Some(cookies.last())
    } else {
        courseware_session_in(cookies.drop_last())
    }
}

/// Concludes the courseware derivation from the chain's terminal outcome:
/// the last collected session pair enters the store; a chain that ended or
/// hit the ceiling without one means no session could be obtained.
pub fn courseware_conclude(result: ChainStepResult, store: &mut SessionStore) -> (r: Result<
    String,
    DeriveError,
>)
    requires
        !(result@ is Proceed),
    ensures
        old(store)@.identity_cookie is None ==> r == Err::<String, DeriveError>(
            DeriveError::NotAuthenticated,
        ) && final(store)@ == old(store)@,
        old(store)@.identity_cookie is Some ==> match result@ {
            crate::redirect::ChainStepView::LoopDetected(_) => r == Err::<String, DeriveError>(
                DeriveError::Protocol(ProtocolFault::SessionNotObtained),
            ) && final(store)@ == old(store)@,
            crate::redirect::ChainStepView::Ended(v) | crate::redirect::ChainStepView::Stopped(v) => {
                match courseware_session_in(v.cookies) {
                    Option::Some(p) => r is Ok && r->Ok_0@ == p && final(store)@ == (StoreView {
                        courseware_session: Option::Some(p),
                        ..old(store)@
                    }),
                    Option::None => r == Err::<String, DeriveError>(
                        DeriveError::Protocol(ProtocolFault::SessionNotObtained),
                    ) && final(store)@ == old(store)@,
                }
            },
            crate::redirect::ChainStepView::Proceed(_) => false,
        },
        store_wf(old(store)@) ==> store_wf(final(store)@),
{
    if store.get_identity_cookie().is_none() {
        return Err(DeriveError::NotAuthenticated);
    }
    let state = match result {
        ChainStepResult::LoopDetected(_) => {
            return Err(DeriveError::Protocol(ProtocolFault::SessionNotObtained));
        },
        ChainStepResult::Ended(s) => s,
        ChainStepResult::Stopped(s) => s,
        ChainStepResult::Proceed(s) => {
            proof {
                assert(false);
            }
            s
        },
    };
    let n = state.cookies.len();
    let mut found: Option<String> = None;
    let mut i: usize = 0;
    while i < n
        invariant
            n == state.cookies@.len(),
            i <= n,
            opt_view(found) == courseware_session_in(
                state.cookies.deep_view().subrange(0, i as int),
            ),
        decreases n - i,
    {
        if pair_matches(state.cookies[i].as_str(), "session") {
            found = Some(state.cookies[i].clone());
        }
        proof {
            let dv = state.cookies.deep_view();
            assert(dv.subrange(0, (i + 1) as int).drop_last() =~= dv.subrange(0, i as int));
            assert(dv.subrange(0, (i + 1) as int).last() == dv[i as int]);
        }
        i = i + 1;
    }
    proof {
        assert(state.cookies.deep_view().subrange(0, n as int) =~= state.cookies.deep_view());
    }
    match found {
        Some(pair) => {
            let value = pair.clone();
            store.record_courseware(pair);
            Ok(value)
        },
        None => Err(DeriveError::Protocol(ProtocolFault::SessionNotObtained)),
    }
}

/// One warning attached to an otherwise-successful login: which downstream
/// service failed, and how.
#[derive(Clone, Copy, Debug, PartialEq, Eq, Structural)]
pub struct ServiceWarning {
    pub service: ServiceId,
    pub fault: DeriveError,
}

/// The warnings an overall login reports: one per failed downstream service,
/// academic affairs first, and none for the services that succeeded.
pub open spec fn login_warnings(
    affairs: Result<(), DeriveError>,
    courseware: Result<(), DeriveError>,
) -> Seq<ServiceWarning> {
    let base = if affairs is Err {
        seq![ServiceWarning { service: ServiceId::AcademicAffairs, fault: affairs->Err_0 }]
    } else {
        Seq::empty()
    };
    if courseware is Err {
        base.push(ServiceWarning { service: ServiceId::Courseware, fault: courseware->Err_0 })
    } else {
        base
    }
}

/// Combines the two downstream outcomes into the overall login report's
/// warning list. Downstream failures are independent and non-fatal: the SSO
/// login stands, and each failed service contributes exactly one warning.
pub fn combine_login_results(
    affairs: &Result<(), DeriveError>,
    courseware: &Result<(), DeriveError>,
) -> (r: Vec<ServiceWarning>)
    ensures
        r@ == login_warnings(*affairs, *courseware),
{
    let mut out: Vec<ServiceWarning> = Vec::new();
    if let Err(e) = affairs {
        out.push(ServiceWarning { service: ServiceId::AcademicAffairs, fault: *e });
    }
    if let Err(e) = courseware {
        out.push(ServiceWarning { service: ServiceId::Courseware, fault: *e });
    }
    proof {
        assert(out@ =~= login_warnings(*affairs, *courseware));
    }
    out
}

/// A login with partial success reports exactly the failed services: no
/// warnings when both downstream derivations succeed, one naming the failed
/// service when exactly one fails, and the failures never erase each other.
pub proof fn lemma_partial_success_warnings(
    affairs: Result<(), DeriveError>,
    courseware: Result<(), DeriveError>,
)
    ensures
        login_warnings(affairs, courseware).len() == (if affairs is Err {
            1int
        } else {
            0int
        }) + (if courseware is Err {
            1int
        } else {
            0int
        }),
        affairs is Err ==> login_warnings(affairs, courseware)[0] == (ServiceWarning {
            service: ServiceId::AcademicAffairs,
            fault: affairs->Err_0,
        }),
        courseware is Err ==> login_warnings(affairs, courseware).last() == (ServiceWarning {
            service: ServiceId::Courseware,
            fault: courseware->Err_0,
        }),
        affairs is Ok && courseware is Ok ==> login_warnings(affairs, courseware).len() == 0,
{
}

} // verus!
