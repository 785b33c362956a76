//! Opening a session, asking after one, and the page to record with.
use vstd::prelude::*;

use crate::config::{AppConfig, ConfigView};
use crate::effect::{DiskOp, DiskOpView, Query, QueryView, Reply, ReplyView};
use crate::flow::{
    answer, answers, ask, asks, astray, break_off, breaks, go_astray, refuse, refuses, work, works,
    Pending, PendingView, Step, StepView,
};
use crate::identity::{is_generated, new_session_identity, IdentityView, SessionIdentity};
use crate::layout::{recorder_page, recorder_page_path, session_dir, session_dir_path};
use crate::messages::{
    CreateSessionReq, CreateSessionResp, CreateSessionRespView, Response, ResponseView, NOT_FOUND,
};
use crate::text::{joined, joined3, opt_text};

verus! {

/// The first step of opening a session with a given identity.
pub open spec fn create(identity: IdentityView, mime_type: Option<Seq<char>>) -> StepView {
    asks(
        PendingView::CreateInsert { identity },
        QueryView::InsertSession {
            id: identity.session_id,
            mime_type,
            secret_token: identity.secret_token,
        },
    )
}

/// After the session was added to the database.
pub open spec fn create_inserted(
    config: ConfigView,
    identity: IdentityView,
    reply: ReplyView,
) -> StepView {
    match reply {
        ReplyView::Done => works(
            PendingView::CreateDir { identity },
            DiskOpView::CreateDirAll { path: session_dir(config.data_dir, identity.session_id) },
        ),
        ReplyView::Failed(message) => breaks(message),
        _ => astray(),
    }
}

/// The links of a session.
pub open spec fn session_links(identity: IdentityView) -> CreateSessionRespView {
    CreateSessionRespView {
        session_id: identity.session_id,
        secret_path: "/r/"@ + identity.secret_token + "/"@,
        upload_base: "/api/r/"@ + identity.secret_token,
        file_path: "/r/"@ + identity.secret_token + "/file"@,
        delete_path: "/api/r/"@ + identity.secret_token,
    }
}

/// After the directory of the session was made.
pub open spec fn create_dir_made(identity: IdentityView, reply: ReplyView) -> StepView {
    match reply {
        ReplyView::Done => answers(ResponseView::Created(session_links(identity))),
        ReplyView::Failed(message) => breaks(message),
        _ => astray(),
    }
}

/// The first step of asking after a session.
pub open spec fn get(id: Seq<char>) -> StepView {
    asks(PendingView::GetLookup, QueryView::SessionById { id })
}

/// After the session was looked up.
pub open spec fn get_looked_up(reply: ReplyView) -> StepView {
    match reply {
        ReplyView::Session(Some(row)) => answers(ResponseView::Session(row)),
        ReplyView::Session(None) => refuses(NOT_FOUND, "session not found"@),
        ReplyView::Failed(message) => breaks(message),
        _ => astray(),
    }
}

/// The first step of serving the recorder page.
pub open spec fn page(config: ConfigView) -> StepView {
    works(PendingView::PageRead, DiskOpView::ReadText { path: recorder_page(config.web_dir) })
}

/// After the recorder page was read.
pub open spec fn page_read(reply: ReplyView) -> StepView {
    match reply {
        ReplyView::Page(text) => answers(ResponseView::Page(text)),
        ReplyView::Failed(message) => breaks(message),
        _ => astray(),
    }
}

/// Starts opening a session with a given identity.
pub fn create_session_as(identity: SessionIdentity, req: CreateSessionReq) -> (step: Step)
    ensures
        step@ == create(identity@, opt_text(req.mime_type)),
{
    let query = Query::InsertSession {
        id: identity.session_id.clone(),
        mime_type: req.mime_type,
        secret_token: identity.secret_token.clone(),
    };
    ask(Pending::CreateInsert { identity }, query)
}

/// Answers a request for a new session. Chance decides on its identity.
pub fn create_session(req: CreateSessionReq) -> (step: Step)
    ensures
        exists|identity: IdentityView| #[trigger]
            is_generated(identity) && step@ == create(identity, opt_text(req.mime_type)),
{
    let identity = new_session_identity();
    let ghost chosen = identity@;
    let step = create_session_as(identity, req);
    assert(is_generated(chosen));
    step
}

/// Goes on after the session was added to the database.
pub fn after_create_insert(
    config: &AppConfig,
    identity: SessionIdentity,
    reply: Reply,
) -> (step: Step)
    ensures
        step@ == create_inserted(config@, identity@, reply@),
{
    match reply {
        Reply::Done => {
            let path = session_dir_path(config.data_dir.as_str(), identity.session_id.as_str());
            work(Pending::CreateDir { identity }, DiskOp::CreateDirAll { path })
        },
        Reply::Failed(message) => break_off(message),
        _ => go_astray(),
    }
}

/// Ends the request after the directory of the session was made.
pub fn after_create_dir(identity: SessionIdentity, reply: Reply) -> (step: Step)
    ensures
        step@ == create_dir_made(identity@, reply@),
{
    match reply {
        Reply::Done => {
            let token = identity.secret_token.as_str();
            let secret_path = joined3("/r/", token, "/");
            let upload_base = joined("/api/r/", token);
            let file_path = joined3("/r/", token, "/file");
            let delete_path = joined("/api/r/", token);
            answer(
                Response::Created(
                    CreateSessionResp {
                        session_id: identity.session_id,
                        secret_path,
                        upload_base,
                        file_path,
                        delete_path,
                    },
                ),
            )
        },
        Reply::Failed(message) => break_off(message),
        _ => go_astray(),
    }
}

/// Answers a request for what is known of a session.
pub fn get_session(id: String) -> (step: Step)
    ensures
        step@ == get(id@),
{
    ask(Pending::GetLookup, Query::SessionById { id })
}

/// Ends the request after the session was looked up.
pub fn after_get_lookup(reply: Reply) -> (step: Step)
    ensures
        step@ == get_looked_up(reply@),
{
    match reply {
        Reply::Session(Some(row)) => answer(Response::Session(row)),
        Reply::Session(None) => refuse(NOT_FOUND, "session not found"),
        Reply::Failed(message) => break_off(message),
        _ => go_astray(),
    }
}

/// Answers a request for the recorder page. It is the same page for every token.
pub fn secret_recorder_page(config: &AppConfig) -> (step: Step)
    ensures
        step@ == page(config@),
{
    let path = recorder_page_path(config.web_dir.as_str());
    work(Pending::PageRead, DiskOp::ReadText { path })
}

/// Ends the request after the recorder page was read.
pub fn after_page_read(reply: Reply) -> (step: Step)
    ensures
        step@ == page_read(reply@),
{
    match reply {
        Reply::Page(text) => answer(Response::Page(text)),
        Reply::Failed(message) => break_off(message),
        _ => go_astray(),
    }
}

} // verus!
