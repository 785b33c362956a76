//! From a secret token to its session and back.
use vstd::prelude::*;

use crate::effect::{Reply, ReplyView};
use crate::messages::{
    failure, internal_err, Failure, FailureView, INTERNAL_SERVER_ERROR, NOT_FOUND,
};

verus! {

/// The failure of a request whose effect got a reply that it cannot have.
pub open spec fn unexpected() -> FailureView {
    FailureView { status: INTERNAL_SERVER_ERROR, message: "unexpected reply"@ }
}

/// The session that a token opens, as the database replied.
pub open spec fn session_of_token(reply: ReplyView) -> Result<Seq<char>, FailureView> {
    match reply {
        ReplyView::Value(Some(session_id)) => Ok(session_id),
        ReplyView::Value(None) => Err(
            FailureView { status: NOT_FOUND, message: "session not found"@ },
        ),
        ReplyView::Failed(message) => Err(
            FailureView { status: INTERNAL_SERVER_ERROR, message },
        ),
        _ => Err(unexpected()),
    }
}

/// The token that opens a session, as the database replied.
pub open spec fn token_of_session(reply: ReplyView) -> Result<Seq<char>, FailureView> {
    match reply {
        ReplyView::Column(Some(Some(token))) => Ok(token),
        ReplyView::Column(_) => Err(
            FailureView { status: NOT_FOUND, message: "secret token not found"@ },
        ),
        ReplyView::Failed(message) => Err(
            FailureView { status: INTERNAL_SERVER_ERROR, message },
        ),
        _ => Err(unexpected()),
    }
}

/// The model of a text or a failure.
pub open spec fn text_result(r: Result<String, Failure>) -> Result<Seq<char>, FailureView> {
    match r {
        Ok(text) => Ok(text@),
        Err(failure) => Err(failure@),
    }
}

/// The session that a token opens, out of the reply to
/// [`Query::SessionIdByToken`](crate::effect::Query::SessionIdByToken).
pub fn find_session_id_by_token(reply: Reply) -> (r: Result<String, Failure>)
    ensures
        text_result(r) == session_of_token(reply@),
{
    match reply {
        Reply::Value(Some(session_id)) => Ok(session_id),
        Reply::Value(None) => Err(failure(NOT_FOUND, "session not found")),
        Reply::Failed(message) => Err(internal_err(message)),
        _ => Err(failure(INTERNAL_SERVER_ERROR, "unexpected reply")),
    }
}

/// The token that opens a session, out of the reply to
/// [`Query::SecretTokenById`](crate::effect::Query::SecretTokenById).
pub fn find_secret_token_by_session_id(reply: Reply) -> (r: Result<String, Failure>)
    ensures
        text_result(r) == token_of_session(reply@),
{
    match reply {
        Reply::Column(Some(Some(token))) => Ok(token),
        Reply::Column(_) => Err(failure(NOT_FOUND, "secret token not found")),
        Reply::Failed(message) => Err(internal_err(message)),
        _ => Err(failure(INTERNAL_SERVER_ERROR, "unexpected reply")),
    }
}

} // verus!
