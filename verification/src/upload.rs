//! Taking in a chunk. A chunk that is known already is not written again. A new one is written
//! to its file first and entered into the database last, so that the database knows no chunk
//! that is not on disk.
use vstd::prelude::*;

use crate::codec::{base64_bytes, chunk_bytes, chunk_digest, digest_text};
use crate::config::{AppConfig, ConfigView};
use crate::effect::{DiskOp, DiskOpView, Query, QueryView, Reply, ReplyView};
use crate::flow::{
    answer, answers, ask, asks, astray, break_off, breaks, fail, fails, go_astray, refuse, refuses,
    work, works, NewChunk, NewChunkView, Pending, PendingView, Step, StepView, WrittenChunk,
    WrittenChunkView,
};
use crate::layout::{chunk_file, chunk_file_path};
use crate::lookup::{find_session_id_by_token, session_of_token};
use crate::messages::{
    Response, ResponseView, UploadChunkReq, UploadChunkReqView, UploadChunkResp,
    UploadChunkRespView, BAD_REQUEST, PAYLOAD_TOO_LARGE,
};
use crate::outside::base64_fault;
use crate::path::{parent, parent_path};
use crate::text::joined;

verus! {

/// The first step of an upload, given what its text decodes to: a text that does not decode, and
/// a chunk over the limit, are refused; else the chunk is looked up.
pub open spec fn decoded_upload(
    config: ConfigView,
    session_id: Seq<char>,
    idx: u32,
    decoded: Result<Seq<u8>, Seq<char>>,
) -> StepView {
    match decoded {
        Err(fault) => refuses(BAD_REQUEST, "invalid base64: "@ + fault),
        Ok(bytes) => if bytes.len() > config.max_chunk_bytes {
            refuses(PAYLOAD_TOO_LARGE, "chunk too large for server limit"@)
        } else {
            asks(
                PendingView::UploadLookup {
                    session_id,
                    idx,
                    bytes,
                    sha256_hex: digest_text(bytes),
                },
                QueryView::ChunkDigest { session_id, idx: idx as i64 },
            )
        },
    }
}

/// What the text of a chunk decodes to.
pub open spec fn decoded(data_b64: Seq<char>) -> Result<Seq<u8>, Seq<char>> {
    match base64_bytes(data_b64) {
        Some(bytes) => Ok(bytes),
        None => Err(base64_fault(data_b64)),
    }
}

/// The first step of an upload to a session.
pub open spec fn upload(
    config: ConfigView,
    session_id: Seq<char>,
    req: UploadChunkReqView,
) -> StepView {
    decoded_upload(config, session_id, req.idx, decoded(req.data_b64))
}

/// The first step of an upload to the session with a token.
pub open spec fn upload_by_token(token: Seq<char>, req: UploadChunkReqView) -> StepView {
    asks(PendingView::UploadResolve { req }, QueryView::SessionIdByToken { token })
}

/// After the session of the token was looked up.
pub open spec fn upload_resolved(
    config: ConfigView,
    req: UploadChunkReqView,
    reply: ReplyView,
) -> StepView {
    match session_of_token(reply) {
        Ok(session_id) => upload(config, session_id, req),
        Err(failure) => fails(failure),
    }
}

/// After the chunk was looked up.
pub open spec fn upload_looked_up(
    config: ConfigView,
    session_id: Seq<char>,
    idx: u32,
    bytes: Seq<u8>,
    sha256_hex: Seq<char>,
    reply: ReplyView,
) -> StepView {
    match reply {
        ReplyView::Value(Some(known)) => answers(
            ResponseView::Chunk(
                UploadChunkRespView { ok: true, idx, already_present: true, sha256_hex: known },
            ),
        ),
        ReplyView::Value(None) => {
            let file_path = chunk_file(config.data_dir, session_id, idx);
            let chunk = NewChunkView { session_id, idx, bytes, sha256_hex, file_path };
            match parent(file_path) {
                Some(path) => works(
                    PendingView::UploadDir { chunk },
                    DiskOpView::CreateDirAll { path },
                ),
                None => works(
                    PendingView::UploadOpen { chunk },
                    DiskOpView::OpenOutput { path: file_path },
                ),
            }
        },
        ReplyView::Failed(message) => breaks(message),
        _ => astray(),
    }
}

/// After the directory of the chunk was made.
pub open spec fn upload_dir_made(chunk: NewChunkView, reply: ReplyView) -> StepView {
    match reply {
        ReplyView::Done => works(
            PendingView::UploadOpen { chunk },
            DiskOpView::OpenOutput { path: chunk.file_path },
        ),
        ReplyView::Failed(message) => breaks(message),
        _ => astray(),
    }
}

/// After the file of the chunk was opened.
pub open spec fn upload_opened(chunk: NewChunkView, reply: ReplyView) -> StepView {
    match reply {
        ReplyView::Done => works(
            PendingView::UploadWrite {
                written: WrittenChunkView {
                    session_id: chunk.session_id,
                    idx: chunk.idx,
                    byte_len: chunk.bytes.len() as i64,
                    sha256_hex: chunk.sha256_hex,
                    file_path: chunk.file_path,
                },
            },
            DiskOpView::WriteOutput { bytes: chunk.bytes },
        ),
        ReplyView::Failed(message) => breaks(message),
        _ => astray(),
    }
}

/// After the chunk was written.
pub open spec fn upload_written(chunk: WrittenChunkView, reply: ReplyView) -> StepView {
    match reply {
        ReplyView::Done => works(PendingView::UploadFlush { written: chunk }, DiskOpView::FlushOutput),
        ReplyView::Failed(message) => breaks(message),
        _ => astray(),
    }
}

/// After the chunk was brought to the disk.
pub open spec fn upload_flushed(chunk: WrittenChunkView, reply: ReplyView) -> StepView {
    match reply {
        ReplyView::Done => asks(
            PendingView::UploadRecord { idx: chunk.idx, sha256_hex: chunk.sha256_hex },
            QueryView::InsertChunk {
                session_id: chunk.session_id,
                idx: chunk.idx as i64,
                byte_len: chunk.byte_len,
                sha256_hex: chunk.sha256_hex,
                file_path: chunk.file_path,
            },
        ),
        ReplyView::Failed(message) => breaks(message),
        _ => astray(),
    }
}

/// After the chunk was added to the database.
pub open spec fn upload_recorded(idx: u32, sha256_hex: Seq<char>, reply: ReplyView) -> StepView {
    match reply {
        ReplyView::Done => answers(
            ResponseView::Chunk(
                UploadChunkRespView { ok: true, idx, already_present: false, sha256_hex },
            ),
        ),
        ReplyView::Failed(message) => breaks(message),
        _ => astray(),
    }
}

/// Starts an upload to a session, given what its text decodes to.
pub fn upload_decoded(
    config: &AppConfig,
    session_id: String,
    idx: u32,
    decoded: Result<Vec<u8>, String>,
) -> (step: Step)
    ensures
        decoded matches Ok(bytes) ==> step@ == decoded_upload(
            config@,
            session_id@,
            idx,
            Ok(bytes@),
        ),
        decoded matches Err(fault) ==> step@ == decoded_upload(
            config@,
            session_id@,
            idx,
            Err(fault@),
        ),
{
    let bytes = match decoded {
        Ok(bytes) => bytes,
        Err(fault) => {
            let message = joined("invalid base64: ", fault.as_str());
            return refuse(BAD_REQUEST, message.as_str());
        },
    };
    if bytes.len() > config.max_chunk_bytes {
        return refuse(PAYLOAD_TOO_LARGE, "chunk too large for server limit");
    }
    let sha256_hex = chunk_digest(&bytes);
    let query = Query::ChunkDigest { session_id: session_id.clone(), idx: idx as i64 };
    ask(Pending::UploadLookup { session_id, idx, bytes, sha256_hex }, query)
}

/// Starts an upload to a session.
pub fn handle_upload_for_session(
    config: &AppConfig,
    session_id: String,
    req: UploadChunkReq,
) -> (step: Step)
    ensures
        step@ == upload(config@, session_id@, req@),
{
    let decoded = chunk_bytes(req.data_b64.as_str());
    upload_decoded(config, session_id, req.idx, decoded)
}

/// Answers an upload by session id.
pub fn upload_chunk(config: &AppConfig, id: String, req: UploadChunkReq) -> (step: Step)
    ensures
        step@ == upload(config@, id@, req@),
{
    handle_upload_for_session(config, id, req)
}

/// Answers an upload by token.
pub fn upload_chunk_by_token(token: String, req: UploadChunkReq) -> (step: Step)
    ensures
        step@ == upload_by_token(token@, req@),
{
    ask(Pending::UploadResolve { req }, Query::SessionIdByToken { token })
}

/// Goes on after the session of the token was looked up.
pub fn after_upload_resolve(config: &AppConfig, req: UploadChunkReq, reply: Reply) -> (step: Step)
    ensures
        step@ == upload_resolved(config@, req@, reply@),
{
    match find_session_id_by_token(reply) {
        Ok(session_id) => handle_upload_for_session(config, session_id, req),
        Err(failure) => fail(failure),
    }
}

/// Goes on after the chunk was looked up.
pub fn after_upload_lookup(
    config: &AppConfig,
    session_id: String,
    idx: u32,
    bytes: Vec<u8>,
    sha256_hex: String,
    reply: Reply,
) -> (step: Step)
    ensures
        step@ == upload_looked_up(config@, session_id@, idx, bytes@, sha256_hex@, reply@),
{
    match reply {
        Reply::Value(Some(known)) => answer(
            Response::Chunk(
                UploadChunkResp { ok: true, idx, already_present: true, sha256_hex: known },
            ),
        ),
        Reply::Value(None) => {
            let file_path = chunk_file_path(config.data_dir.as_str(), session_id.as_str(), idx);
            match parent_path(file_path.as_str()) {
                Some(path) => work(
                    Pending::UploadDir {
                        chunk: NewChunk { session_id, idx, bytes, sha256_hex, file_path },
                    },
                    DiskOp::CreateDirAll { path },
                ),
                None => {
                    let path = file_path.clone();
                    work(
                        Pending::UploadOpen {
                            chunk: NewChunk { session_id, idx, bytes, sha256_hex, file_path },
                        },
                        DiskOp::OpenOutput { path },
                    )
                },
            }
        },
        Reply::Failed(message) => break_off(message),
        _ => go_astray(),
    }
}

/// Goes on after the directory of the chunk was made.
pub fn after_upload_dir(chunk: NewChunk, reply: Reply) -> (step: Step)
    ensures
        step@ == upload_dir_made(chunk@, reply@),
{
    match reply {
        Reply::Done => {
            let path = chunk.file_path.clone();
            work(Pending::UploadOpen { chunk }, DiskOp::OpenOutput { path })
        },
        Reply::Failed(message) => break_off(message),
        _ => go_astray(),
    }
}

/// Goes on after the file of the chunk was opened.
pub fn after_upload_open(chunk: NewChunk, reply: Reply) -> (step: Step)
    ensures
        step@ == upload_opened(chunk@, reply@),
{
    match reply {
        Reply::Done => {
            let byte_len: i64 = chunk.bytes.len() as i64;
            let written = WrittenChunk {
                session_id: chunk.session_id,
                idx: chunk.idx,
                byte_len,
                sha256_hex: chunk.sha256_hex,
                file_path: chunk.file_path,
            };
            work(
                Pending::UploadWrite { written },
                DiskOp::WriteOutput { bytes: chunk.bytes },
            )
        },
        Reply::Failed(message) => break_off(message),
        _ => go_astray(),
    }
}

/// Goes on after the chunk was written.
pub fn after_upload_write(chunk: WrittenChunk, reply: Reply) -> (step: Step)
    ensures
        step@ == upload_written(chunk@, reply@),
{
    match reply {
        Reply::Done => work(Pending::UploadFlush { written: chunk }, DiskOp::FlushOutput),
        Reply::Failed(message) => break_off(message),
        _ => go_astray(),
    }
}

/// Goes on after the chunk was brought to the disk.
pub fn after_upload_flush(chunk: WrittenChunk, reply: Reply) -> (step: Step)
    ensures
        step@ == upload_flushed(chunk@, reply@),
{
    match reply {
        Reply::Done => {
            let pending = Pending::UploadRecord {
                idx: chunk.idx,
                sha256_hex: chunk.sha256_hex.clone(),
            };
            let query = Query::InsertChunk {
                session_id: chunk.session_id,
                idx: chunk.idx as i64,
                byte_len: chunk.byte_len,
                sha256_hex: chunk.sha256_hex,
                file_path: chunk.file_path,
            };
            ask(pending, query)
        },
        Reply::Failed(message) => break_off(message),
        _ => go_astray(),
    }
}

/// Goes on after the chunk was added to the database.
pub fn after_upload_record(idx: u32, sha256_hex: String, reply: Reply) -> (step: Step)
    ensures
        step@ == upload_recorded(idx, sha256_hex@, reply@),
{
    match reply {
        Reply::Done => answer(
            Response::Chunk(
                UploadChunkResp { ok: true, idx, already_present: false, sha256_hex },
            ),
        ),
        Reply::Failed(message) => break_off(message),
        _ => go_astray(),
    }
}

} // verus!
