//! The guarantees of the interceptor-and-store pair, stated as laws over the
//! store's abstract association and the admissible outcomes.

use vstd::prelude::*;

use crate::manager::UserState;
use crate::service::outcome_admissible;

verus! {

/// Law: a request that presents no token is always classified `NoCookie`,
/// whatever the store holds and whether or not it is reliable.
pub proof fn lemma_no_token_yields_no_cookie<U>(
    sessions: Map<Seq<char>, U>,
    reliable: bool,
    out: UserState<U>,
)
    requires
        outcome_admissible(sessions, reliable, None, out),
    ensures
        out is NoCookie,
{
}

/// Law: create-then-verify round trip. Storing `data` under a fresh
/// identifier yields an association in which that identifier resolves to
/// exactly `data`.
pub proof fn lemma_create_then_verify<U>(sessions: Map<Seq<char>, U>, id: Seq<char>, data: U)
    ensures
        sessions.insert(id, data).contains_key(id),
        sessions.insert(id, data)[id] == data,
{
}

/// Law: after a successful create of `data` under `id` on a reliable store,
/// a request presenting `id` is classified `HaveSession` carrying exactly the
/// stored data.
pub proof fn lemma_created_session_resolves<U>(
    sessions: Map<Seq<char>, U>,
    id: Seq<char>,
    data: U,
    out: UserState<U>,
)
    requires
        outcome_admissible(sessions.insert(id, data), true, Some(id), out),
    ensures
        out == UserState::HaveSession(data),
{
}

/// Law: a request whose token does not resolve — never created, or deleted —
/// is classified `NoSession`.
pub proof fn lemma_unresolved_token_yields_no_session<U>(
    sessions: Map<Seq<char>, U>,
    reliable: bool,
    id: Seq<char>,
    out: UserState<U>,
)
    requires
        !sessions.contains_key(id),
        outcome_admissible(sessions, reliable, Some(id), out),
    ensures
        out is NoSession,
{
}

/// Law: deletion is idempotent. Removing an identifier leaves an association
/// without it, so a second removal changes nothing, and a request presenting
/// the removed identifier is classified `NoSession` after either removal.
pub proof fn lemma_delete_idempotent<U>(
    sessions: Map<Seq<char>, U>,
    reliable: bool,
    id: Seq<char>,
    out: UserState<U>,
)
    requires
        outcome_admissible(sessions.remove(id), reliable, Some(id), out),
    ensures
        !sessions.remove(id).contains_key(id),
        sessions.remove(id).remove(id) == sessions.remove(id),
        out is NoSession,
{
    assert(sessions.remove(id).remove(id) =~= sessions.remove(id));
}

} // verus!
