//! The session store: one mutable record per application instance, holding
//! the SSO identity cookie, the authenticated username, and each downstream
//! service's derived session. Downstream sessions are only ever present when
//! an identity cookie is, and the academic-affairs pair is set together.
use vstd::prelude::*;
use crate::cookie::opt_view;

verus! {

/// Which downstream service a derived session belongs to.
#[derive(Clone, Copy, Debug, PartialEq, Eq, Structural)]
pub enum ServiceId {
    /// The academic-affairs portal: needs a session id plus a routing token.
    AcademicAffairs,
    /// The courseware portal: needs a single session token.
    Courseware,
}

/// A service-local session: a pair for academic affairs, one token for
/// courseware.
#[derive(Clone, Debug, PartialEq, Eq)]
pub enum SessionHandle {
    AffairsPair { session: String, route: String },
    CoursewareToken { token: String },
}

/// The mathematical state of a session store.
pub struct StoreView {
    pub identity_cookie: Option<Seq<char>>,
    pub username: Option<Seq<char>>,
    pub affairs_session: Option<Seq<char>>,
    pub affairs_route: Option<Seq<char>>,
    pub courseware_session: Option<Seq<char>>,
}

/// The store after a successful SSO login: identity cookie and username are
/// overwritten, everything else is kept.
pub open spec fn after_login_success(v: StoreView, cookie: Seq<char>, user: Seq<char>) -> StoreView {
    StoreView { identity_cookie: Option::Some(cookie), username: Option::Some(user), ..v }
}

/// The store after a failed SSO login: unchanged.
pub open spec fn after_login_failure(v: StoreView) -> StoreView {
    v
}

/// Process-wide session state. Created empty; the identity cookie is written
/// once per successful SSO login (re-login overwrites it); each downstream
/// deriver writes its own session value.
pub struct SessionStore {
    identity_cookie: Option<String>,
    username: Option<String>,
    affairs_session: Option<String>,
    affairs_route: Option<String>,
    courseware_session: Option<String>,
}

impl View for SessionStore {
    type V = StoreView;

    closed spec fn view(&self) -> StoreView {
        StoreView {
            identity_cookie: opt_view(self.identity_cookie),
            username: opt_view(self.username),
            affairs_session: opt_view(self.affairs_session),
            affairs_route: opt_view(self.affairs_route),
            courseware_session: opt_view(self.courseware_session),
        }
    }
}

/// The store invariant: downstream sessions only exist alongside an identity
/// cookie, the affairs pair is both-or-neither, and a username accompanies
/// the identity cookie it was authenticated with.
pub open spec fn store_wf(v: StoreView) -> bool {
    &&& v.affairs_session is Some <==> v.affairs_route is Some
    &&& v.affairs_session is Some ==> v.identity_cookie is Some
    &&& v.courseware_session is Some ==> v.identity_cookie is Some
    &&& v.username is Some <==> v.identity_cookie is Some
}

impl SessionStore {
    /// An empty store, as at process start.
    pub fn new() -> (r: SessionStore)
        ensures
            r@.identity_cookie is None,
            r@.username is None,
            r@.affairs_session is None,
            r@.affairs_route is None,
            r@.courseware_session is None,
            store_wf(r@),
    {
        SessionStore {
            identity_cookie: None,
            username: None,
            affairs_session: None,
            affairs_route: None,
            courseware_session: None,
        }
    }

    /// Records a successful SSO login: overwrites the identity cookie and the
    /// username, leaving the downstream sessions as they were.
    pub fn record_identity(&mut self, cookie: String, user: String)
        ensures
            final(self)@ == after_login_success(old(self)@, cookie@, user@),
            store_wf(old(self)@) ==> store_wf(final(self)@),
    {
        self.identity_cookie = Some(cookie);
        self.username = Some(user);
    }

    /// Records the derived academic-affairs session: the session id and the
    /// routing token, required together.
    pub fn record_affairs(&mut self, session: String, route: String)
        requires
            old(self)@.identity_cookie is Some,
        ensures
            final(self)@ == (StoreView {
                affairs_session: Option::Some(session@),
                affairs_route: Option::Some(route@),
                ..old(self)@
            }),
            store_wf(old(self)@) ==> store_wf(final(self)@),
    {
        self.affairs_session = Some(session);
        self.affairs_route = Some(route);
    }

    /// Records the derived courseware session token.
    pub fn record_courseware(&mut self, session: String)
        requires
            old(self)@.identity_cookie is Some,
        ensures
            final(self)@ == (StoreView {
                courseware_session: Option::Some(session@),
                ..old(self)@
            }),
            store_wf(old(self)@) ==> store_wf(final(self)@),
    {
        self.courseware_session = Some(session);
    }

    /// The identity cookie, if an SSO login has succeeded.
    pub fn get_identity_cookie(&self) -> (r: Option<String>)
        ensures
            opt_view(r) == self@.identity_cookie,
    {
        match &self.identity_cookie {
            Some(c) => Some(c.clone()),
            None => None,
        }
    }

    /// The username of the last successful SSO login.
    pub fn get_username(&self) -> (r: Option<String>)
        ensures
            opt_view(r) == self@.username,
    {
        match &self.username {
            Some(u) => Some(u.clone()),
            None => None,
        }
    }

    /// The derived session for `service`, if that service's derivation has
    /// succeeded: the pair for academic affairs, the token for courseware.
    pub fn get_downstream_session(&self, service: ServiceId) -> (r: Option<SessionHandle>)
        ensures
            match service {
                ServiceId::AcademicAffairs => match r {
                    Option::Some(h) => h matches SessionHandle::AffairsPair { session, route }
                        && self@.affairs_session == Option::Some(session@)
                        && self@.affairs_route == Option::Some(route@),
                    Option::None => self@.affairs_session is None || self@.affairs_route is None,
                },
                ServiceId::Courseware => match r {
                    Option::Some(h) => h matches SessionHandle::CoursewareToken { token }
                        && self@.courseware_session == Option::Some(token@),
                    Option::None => self@.courseware_session is None,
                },
            },
    {
        match service {
            ServiceId::AcademicAffairs => match (&self.affairs_session, &self.affairs_route) {
                (Some(s), Some(t)) => Some(
                    SessionHandle::AffairsPair { session: s.clone(), route: t.clone() },
                ),
                _ => None,
            },
            ServiceId::Courseware => match &self.courseware_session {
                Some(s) => Some(SessionHandle::CoursewareToken { token: s.clone() }),
                None => None,
            },
        }
    }
}

/// Last writer wins: whatever mix of successful and failed login flows has
/// touched the store before, a final successful login leaves exactly its own
/// cookie and username, and a failed flow changes nothing.
pub proof fn lemma_last_writer_wins(
    v: StoreView,
    c1: Seq<char>,
    u1: Seq<char>,
    c2: Seq<char>,
    u2: Seq<char>,
)
    ensures
        after_login_success(after_login_success(v, c1, u1), c2, u2) == after_login_success(
            v,
            c2,
            u2,
        ),
        after_login_success(after_login_failure(v), c2, u2) == after_login_success(v, c2, u2),
        after_login_failure(after_login_success(v, c2, u2)).identity_cookie == Option::Some(c2),
        after_login_success(v, c2, u2).identity_cookie == Option::Some(c2),
        after_login_success(v, c2, u2).username == Option::Some(u2),
{
}

} // verus!
