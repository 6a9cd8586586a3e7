//! The session-outcome model and the store contract.
//!
//! `UserState` is the three-way classification the interceptor attaches to a
//! request; `UserData` is the wrapper handlers read it through. `SessionManage`
//! is the capability a session-store backend must provide: create, verify and
//! delete a session record, keyed by an opaque string identifier.

use vstd::prelude::*;

verus! {

/// What the interceptor discovered about the caller's session.
///
/// `HaveSession` carries an independently owned copy of the resolved user
/// data; `NoSession` means a token was presented but does not resolve (or the
/// store failed); `NoCookie` means no token was presented at all.
#[derive(Debug, Clone)]
pub enum UserState<T> {
    HaveSession(T),
    NoSession,
    NoCookie,
}

/// Wrapper around `UserState`, the request-scoped value downstream handlers
/// read. Exactly one is produced per request and it is read-only evidence.
#[derive(Debug, Clone)]
pub struct UserData<T: Clone>(pub UserState<T>);

/// A deep, independently owned copy: the clone is equal to the original, so a
/// store can hand resolved user data out without aliasing its own records and
/// without handlers being able to corrupt store state.
pub trait DeepClone: Clone {
    fn deep_clone(&self) -> (r: Self)
        ensures
            r == *self,
    ;
}

impl DeepClone for String {
    fn deep_clone(&self) -> (r: Self)
        ensures
            r == *self,
    {
        self.clone()
    }
}

/// A small concrete user-data record, usable as the resolved data of a store.
#[derive(Debug, Clone)]
pub struct SessionUserData {
    pub name: String,
    pub mail: String,
}

impl DeepClone for SessionUserData {
    fn deep_clone(&self) -> (r: Self)
        ensures
            r == *self,
    {
        SessionUserData { name: self.name.clone(), mail: self.mail.clone() }
    }
}

/// The store contract: the abstract capability a pluggable backend provides.
///
/// The abstract state of a store is `sessions()`, a map from identifier text
/// to the stored user data. `reliable()` says the backend cannot malfunction:
/// lookups and removals are then owed `Ok`; `can_create()` says one more
/// record can be persisted, so creation is owed `Ok` too. A backend that can
/// fail (lock contention, remote outage) may return its `Error` instead, but
/// then must leave the mapping unchanged.
pub trait SessionManage<T>: Sized {
    type SessionID;
    type UserInfo: Clone;
    type Error;

    /// The association from session-identifier text to stored user data.
    spec fn sessions(&self) -> Map<Seq<char>, Self::UserInfo>;

    /// True when the backend cannot malfunction: lookups and removals are
    /// then owed `Ok`.
    spec fn reliable(&self) -> bool;

    /// True when the backend can persist one more record: `add_session` is
    /// then owed `Ok`.
    spec fn can_create(&self) -> bool;

    /// The identifier text a `SessionID` value stands for.
    spec fn id_chars(id: &Self::SessionID) -> Seq<char>;

    /// What this backend stores for a given session-creation input.
    spec fn stored(data: &T) -> Self::UserInfo;

    /// Generates a fresh identifier, persists the association, returns the
    /// identifier; fails only on backend malfunction, leaving the map as is.
    fn add_session(&mut self, session_data: T) -> (r: Result<Self::SessionID, Self::Error>)
        ensures
            (r matches Ok(id) ==> {
                &&& !old(self).sessions().contains_key(Self::id_chars(&id))
                &&& final(self).sessions() == old(self).sessions().insert(
                    Self::id_chars(&id),
                    Self::stored(&session_data),
                )
            }),
            r is Err ==> final(self).sessions() == old(self).sessions(),
            old(self).can_create() ==> r is Ok,
            final(self).reliable() == old(self).reliable(),
    ;

    /// Resolves an identifier to the stored data, `None` when the identifier
    /// is not currently valid; "not found" is a valid absence, not an error.
    fn verify_session(&self, session_id: &str) -> (r: Result<Option<Self::UserInfo>, Self::Error>)
        ensures
            (r matches Ok(found) ==> match found {
                Some(data) => self.sessions().contains_key(session_id@)
                    && data == self.sessions()[session_id@],
                None => !self.sessions().contains_key(session_id@),
            }),
            self.reliable() ==> r is Ok,
    ;

    /// Removes the association if present; deleting a non-existent identifier
    /// is not an error. Removal never degrades the backend.
    fn delete_session(&mut self, session_id: &str) -> (r: Result<(), Self::Error>)
        ensures
            r is Ok ==> final(self).sessions() == old(self).sessions().remove(session_id@),
            r is Err ==> final(self).sessions() == old(self).sessions(),
            old(self).reliable() ==> r is Ok,
            final(self).reliable() == old(self).reliable(),
    ;
}

} // verus!
