//! Playing a finalized recording.
use vstd::prelude::*;

use crate::effect::{DiskOp, DiskOpView, Query, QueryView, Reply, ReplyView};
use crate::flow::{
    answer, answers, ask, asks, astray, break_off, breaks, go_astray, refuse, refuses, work, works,
    Pending, PendingView, Step, StepView,
};
use crate::messages::{AudioFile, AudioFileView, Response, ResponseView, NOT_FOUND};
use crate::outside::{header_char, header_value_fault};
use crate::text::joined3;

verus! {

/// The header that names the recording when it is saved.
pub open spec fn disposition(session_id: Seq<char>) -> Seq<char> {
    "inline; filename=\""@ + session_id + ".webm\""@
}

/// The step that reads the file of a recording.
pub open spec fn reads_file(session_id: Seq<char>, path: Seq<char>) -> StepView {
    works(PendingView::DownloadRead { session_id }, DiskOpView::ReadFile { path })
}

/// The first step of playing a session's recording by the session's id.
pub open spec fn download_by_id(id: Seq<char>) -> StepView {
    asks(PendingView::DownloadById { id }, QueryView::OutputPathById { id })
}

/// The first step of playing a session's recording by the session's token.
pub open spec fn download_by_token(token: Seq<char>) -> StepView {
    asks(PendingView::DownloadByToken, QueryView::RecordingByToken { token })
}

/// After the file was looked up by id.
pub open spec fn download_id_found(id: Seq<char>, reply: ReplyView) -> StepView {
    match reply {
        ReplyView::Column(Some(Some(path))) => reads_file(id, path),
        ReplyView::Column(_) => refuses(NOT_FOUND, "finalized file not found"@),
        ReplyView::Failed(message) => breaks(message),
        _ => astray(),
    }
}

/// After the file was looked up by token.
pub open spec fn download_token_found(reply: ReplyView) -> StepView {
    match reply {
        ReplyView::Recording(Some(recording)) => match recording.output_path {
            Some(path) => reads_file(recording.session_id, path),
            None => refuses(NOT_FOUND, "finalized file not found"@),
        },
        ReplyView::Recording(None) => refuses(NOT_FOUND, "recording not found"@),
        ReplyView::Failed(message) => breaks(message),
        _ => astray(),
    }
}

/// Whether a text can be the value of an HTTP header.
pub open spec fn is_header_value(text: Seq<char>) -> bool {
    forall|i: int| 0 <= i < text.len() ==> header_char(#[trigger] text[i])
}

/// After the file was read: it is answered with its headers, unless the session's id cannot stand
/// in one.
pub open spec fn audio_response(session_id: Seq<char>, reply: ReplyView) -> StepView {
    match reply {
        ReplyView::Bytes(data) => if is_header_value(disposition(session_id)) {
            answers(
                ResponseView::Audio(
                    AudioFileView {
                        content_type: "audio/webm"@,
                        content_disposition: disposition(session_id),
                        data,
                    },
                ),
            )
        } else {
            breaks("failed to parse header value"@)
        },
        ReplyView::Failed(message) => breaks(message),
        _ => astray(),
    }
}

/// Answers a request for a recording by session id.
pub fn download_file_legacy(id: String) -> (step: Step)
    ensures
        step@ == download_by_id(id@),
{
    let query = Query::OutputPathById { id: id.clone() };
    ask(Pending::DownloadById { id }, query)
}

/// Answers a request for a recording by token.
pub fn download_file_by_token(token: String) -> (step: Step)
    ensures
        step@ == download_by_token(token@),
{
    ask(Pending::DownloadByToken, Query::RecordingByToken { token })
}

fn read_file(session_id: String, path: String) -> (step: Step)
    ensures
        step@ == reads_file(session_id@, path@),
{
    work(Pending::DownloadRead { session_id }, DiskOp::ReadFile { path })
}

/// Goes on after the file was looked up by id.
pub fn after_download_by_id(id: String, reply: Reply) -> (step: Step)
    ensures
        step@ == download_id_found(id@, reply@),
{
    match reply {
        Reply::Column(Some(Some(path))) => read_file(id, path),
        Reply::Column(_) => refuse(NOT_FOUND, "finalized file not found"),
        Reply::Failed(message) => break_off(message),
        _ => go_astray(),
    }
}

/// Goes on after the file was looked up by token.
pub fn after_download_by_token(reply: Reply) -> (step: Step)
    ensures
        step@ == download_token_found(reply@),
{
    match reply {
        Reply::Recording(Some(recording)) => match recording.output_path {
            Some(path) => read_file(recording.session_id, path),
            None => refuse(NOT_FOUND, "finalized file not found"),
        },
        Reply::Recording(None) => refuse(NOT_FOUND, "recording not found"),
        Reply::Failed(message) => break_off(message),
        _ => go_astray(),
    }
}

/// Ends the request after the file was read.
pub fn build_audio_response(session_id: String, reply: Reply) -> (step: Step)
    ensures
        step@ == audio_response(session_id@, reply@),
{
    match reply {
        Reply::Bytes(data) => {
            let content_disposition = joined3(
                "inline; filename=\"",
                session_id.as_str(),
                ".webm\"",
            );
            match header_value_fault(content_disposition.as_str()) {
                Some(message) => break_off(message),
                None => answer(
                    Response::Audio(
                        AudioFile {
                            content_type: "audio/webm".to_owned(),
                            content_disposition,
                            data,
                        },
                    ),
                ),
            }
        },
        Reply::Failed(message) => break_off(message),
        _ => go_astray(),
    }
}

} // verus!
