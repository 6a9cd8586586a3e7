//! The verification interceptor: extract a session token from a request's
//! cookie header, resolve it through the store, classify the result, attach
//! the outcome, and hand the request on unchanged.

use vstd::prelude::*;

use crate::manager::SessionManage;
use crate::manager::UserData;
use crate::manager::UserState;

verus! {

/// The value of the cookie named `key` within a `Cookie` request-header text,
/// as axum-extra's jar parses it; `None` when the header carries no such
/// cookie (or cannot be read as a header value at all).
pub uninterp spec fn cookie_in_header(header: Seq<char>, key: Seq<char>) -> Option<Seq<char>>;

/// Relies on axum-extra's `CookieJar::from_headers` and `CookieJar::get` (and
/// http's `HeaderValue::from_str` to carry the text in): the parse splits the
/// header on `;` and decodes each piece, so the named cookie's value is a
/// function of the header text and the key alone.
#[verifier::external_body]
fn extract_cookie(header: &str, key: &str) -> (r: Option<String>)
    ensures
        r is Some <==> cookie_in_header(header@, key@) is Some,
        (r matches Some(v) ==> cookie_in_header(header@, key@) matches Some(c) && v@ == c),
{
    let mut headers = http::HeaderMap::new();
    match http::HeaderValue::from_str(header) {
        Ok(value) => {
            headers.insert(http::header::COOKIE, value);
        },
        Err(_) => {
            return None;
        },
    }
    axum_extra::extract::CookieJar::from_headers(&headers).get(key).map(|c| c.value().to_owned())
}

/// The session token a request presents: the value of the configured cookie,
/// or `None` when the request carries no cookie header or no such cookie.
pub open spec fn request_token(cookie_header: Option<Seq<char>>, key: Seq<char>) -> Option<
    Seq<char>,
> {
    match cookie_header {
        Some(h) => cookie_in_header(h, key),
        None => None,
    }
}

/// The view of an optional cookie-header argument.
pub open spec fn header_view(cookie_header: Option<&str>) -> Option<Seq<char>> {
    match cookie_header {
        Some(h) => Some(h@),
        None => None,
    }
}

/// How the interceptor classifies what the store said: a resolved record
/// becomes `HaveSession`, an explicit absence becomes `NoSession`, and a store
/// failure is absorbed into `NoSession`; no lookup at all means `NoCookie`.
pub open spec fn classify_spec<U, E>(lookup: Option<Result<Option<U>, E>>) -> UserState<U> {
    match lookup {
        None => UserState::NoCookie,
        Some(Ok(Some(data))) => UserState::HaveSession(data),
        Some(Ok(None)) => UserState::NoSession,
        Some(Err(_)) => UserState::NoSession,
    }
}

/// Turns the result of the (possibly absent) store lookup into the outcome
/// attached to the request. `None` stands for "no token was presented, so no
/// lookup was made".
pub fn classify<U, E>(lookup: Option<Result<Option<U>, E>>) -> (r: UserState<U>)
    ensures
        r == classify_spec(lookup),
{
    match lookup {
        None => UserState::NoCookie,
        Some(Ok(Some(data))) => UserState::HaveSession(data),
        Some(Ok(None)) => UserState::NoSession,
        Some(Err(_)) => UserState::NoSession,
    }
}

/// Extracts the session token carried by a request's cookie header under the
/// configured cookie name.
pub fn token_from_header(cookie_header: Option<&str>, key: &str) -> (r: Option<String>)
    ensures
        r is Some <==> request_token(header_view(cookie_header), key@) is Some,
        (r matches Some(v) ==> request_token(header_view(cookie_header), key@) matches Some(c)
            && v@ == c),
{
    match cookie_header {
        Some(header) => extract_cookie(header, key),
        None => None,
    }
}

/// What must hold of the outcome attached for a request that presented
/// `token`, against a store whose association is `sessions`:
/// `NoCookie` exactly when no token came; a reported session really is the
/// stored record for the token; an unresolvable token is reported `NoSession`;
/// and when the backend cannot fail, a live token is always resolved.
pub open spec fn outcome_admissible<U>(
    sessions: Map<Seq<char>, U>,
    reliable: bool,
    token: Option<Seq<char>>,
    out: UserState<U>,
) -> bool {
    match token {
        None => out is NoCookie,
        Some(id) => {
            &&& !(out is NoCookie)
            &&& (out matches UserState::HaveSession(data) ==> sessions.contains_key(id) && data
                == sessions[id])
            &&& (!sessions.contains_key(id) ==> out is NoSession)
            &&& (reliable && sessions.contains_key(id) ==> out == UserState::HaveSession(
                sessions[id],
            ))
        },
    }
}

/// The configured interceptor: the downstream stage it forwards to, the store
/// handle it consults, and the cookie name the token travels under.
#[derive(Debug)]
pub struct SessionManagerService<'a, S, P, T> where P: SessionManage<T> {
    inner: S,
    sessions: P,
    session_id_key: &'a str,
    phantom: core::marker::PhantomData<T>,
}

impl<'a, S, P, T> SessionManagerService<'a, S, P, T> where P: SessionManage<T> {
    /// The store handle this interceptor consults.
    pub closed spec fn store(&self) -> P {
        self.sessions
    }

    /// The cookie name the session token travels under.
    pub closed spec fn key(&self) -> Seq<char> {
        self.session_id_key@
    }

    /// The downstream stage requests are forwarded to.
    pub closed spec fn next_stage(&self) -> S {
        self.inner
    }

    /// Builds an interceptor from the downstream stage, a store handle and the
    /// cookie name; pure configuration, no I/O.
    pub fn new(
        inner: S,
        sessions: P,
        session_id_key: &'a str,
        phantom: core::marker::PhantomData<T>,
    ) -> (r: Self)
        ensures
            r.next_stage() == inner,
            r.store() == sessions,
            r.key() == session_id_key@,
    {
        Self { inner, sessions, session_id_key, phantom }
    }

    /// Decides the outcome for a request that presented the given cookie
    /// header: extract the token, resolve it through the store, classify.
    /// The interceptor itself never fails: a store error is absorbed.
    pub fn handle(&self, cookie_header: Option<&str>) -> (r: UserData<P::UserInfo>)
        ensures
            outcome_admissible(
                self.store().sessions(),
                self.store().reliable(),
                request_token(header_view(cookie_header), self.key()),
                r.0,
            ),
    {
        let lookup = match token_from_header(cookie_header, self.session_id_key) {
            Some(token) => Some(self.sessions.verify_session(token.as_str())),
            None => None,
        };
        UserData(classify(lookup))
    }
}

/// The interceptor's picture of an inbound request: the cookie-header text it
/// reads, and the write-once, request-scoped slot the outcome is attached to.
/// The surrounding transport converts its own request type to and from this.
pub struct SessionRequest<U: Clone> {
    cookie_header: Option<String>,
    outcome: Option<UserData<U>>,
}

impl<U: Clone> SessionRequest<U> {
    /// The cookie-header text this request arrived with.
    pub closed spec fn header(&self) -> Option<Seq<char>> {
        match self.cookie_header {
            Some(h) => Some(h@),
            None => None,
        }
    }

    /// What has been attached to the request's context slot.
    pub closed spec fn attached(&self) -> Option<UserState<U>> {
        match self.outcome {
            Some(UserData(state)) => Some(state),
            None => None,
        }
    }

    /// A fresh request carrying the given cookie-header text; nothing is
    /// attached yet.
    pub fn new(cookie_header: Option<String>) -> (r: Self)
        ensures
            r.header() == match cookie_header {
                Some(h) => Some(h@),
                None => None::<Seq<char>>,
            },
            r.attached() is None,
    {
        SessionRequest { cookie_header, outcome: None }
    }

    /// The attached outcome, as a downstream handler reads it.
    pub fn outcome(&self) -> (r: &Option<UserData<U>>)
        ensures
            match r {
                Some(UserData(state)) => self.attached() == Some(*state),
                None => self.attached() is None,
            },
    {
        &self.outcome
    }
}

impl<'a, S, P, T> SessionManagerService<'a, S, P, T> where P: SessionManage<T> {
    /// Runs the per-request sequence on the request model: extract, resolve,
    /// classify, attach. The request is otherwise left untouched, and exactly
    /// one outcome is attached.
    pub fn process(&self, req: &mut SessionRequest<P::UserInfo>)
        requires
            old(req).attached() is None,
        ensures
            final(req).header() == old(req).header(),
            (final(req).attached() matches Some(out) && outcome_admissible(
                self.store().sessions(),
                self.store().reliable(),
                request_token(old(req).header(), self.key()),
                out,
            )),
    {
        let outcome = match &req.cookie_header {
            Some(header) => self.handle(Some(header.as_str())),
            None => self.handle(None),
        };
        req.outcome = Some(outcome);
    }

    /// Runs the per-request sequence, then forwards the annotated request to
    /// the downstream stage exactly once and returns that stage's response
    /// unmodified: whatever `resp` is, it is something `next` really produced
    /// on the annotated request.
    pub fn process_and_forward<F, R>(
        &self,
        req: SessionRequest<P::UserInfo>,
        next: F,
    ) -> (resp: R) where F: FnOnce(SessionRequest<P::UserInfo>) -> R
        requires
            req.attached() is None,
            forall|q: SessionRequest<P::UserInfo>|
                q.header() == req.header() ==> #[trigger] call_requires(next, (q,)),
        ensures
            exists|q: SessionRequest<P::UserInfo>|
                {
                    &&& q.header() == req.header()
                    &&& (#[trigger] q.attached()) matches Some(out) && outcome_admissible(
                        self.store().sessions(),
                        self.store().reliable(),
                        request_token(req.header(), self.key()),
                        out,
                    )
                    &&& call_ensures(next, (q,), resp)
                },
    {
        let mut annotated = req;
        self.process(&mut annotated);
        let ghost q = annotated;
        let resp = next(annotated);
        proof {
            assert(q.header() == req.header());
            assert(call_ensures(next, (q,), resp));
        }
        resp
    }
}

} // verus!
