//! The interceptor factory: fixes a store handle and a cookie name once, and
//! installs a configured `SessionManagerService` ahead of a downstream stage.

use vstd::prelude::*;

use crate::manager::SessionManage;
use crate::service::SessionManagerService;

verus! {

/// Configuration for the interceptor: the store handle and the name of the
/// cookie the session token travels under, fixed at construction time.
#[derive(Debug)]
pub struct SessionManagerLayer<'a, P, T> where P: SessionManage<T> {
    sessions: P,
    session_id_key: &'a str,
    phantome: core::marker::PhantomData<T>,
}

impl<'a, P, T> SessionManagerLayer<'a, P, T> where P: SessionManage<T> {
    /// The store handle this configuration carries.
    pub closed spec fn store(&self) -> P {
        self.sessions
    }

    /// The cookie name this configuration carries.
    pub closed spec fn key(&self) -> Seq<char> {
        self.session_id_key@
    }

    /// Fixes a store handle and a cookie name; pure configuration, no I/O and
    /// no validation.
    pub fn new(sessions: P, session_id_key: &'a str, phantome: core::marker::PhantomData<T>) -> (r:
        Self)
        ensures
            r.store() == sessions,
            r.key() == session_id_key@,
    {
        Self { sessions, session_id_key, phantome }
    }

    /// Installs the configuration ahead of a downstream stage: the resulting
    /// interceptor consults this store and reads this cookie name, and
    /// forwards every request to `inner`.
    pub fn layer<S>(self, inner: S) -> (svc: SessionManagerService<'a, S, P, T>)
        ensures
            svc.next_stage() == inner,
            svc.store() == self.store(),
            svc.key() == self.key(),
    {
        SessionManagerService::new(
            inner,
            self.sessions,
            self.session_id_key,
            core::marker::PhantomData,
        )
    }
}

} // verus!
