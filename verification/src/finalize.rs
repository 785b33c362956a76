//! Putting a recording together: the chunks are copied into one file by ascending index.
use vstd::prelude::*;

use crate::config::{AppConfig, ConfigView};
use crate::effect::{
    texts, DiskOp, DiskOpView, ListedChunk, ListedChunkView, Query, QueryView, Reply, ReplyView,
};
use crate::flow::{
    answer, answers, ask, asks, astray, break_off, breaks, fail, fails, go_astray, refuse, refuses,
    work, works, Assembly, AssemblyView, Pending, PendingView, Step, StepView,
};
use crate::layout::{output_file, output_file_path};
use crate::lookup::{
    find_secret_token_by_session_id, find_session_id_by_token, session_of_token, token_of_session,
};
use crate::messages::{FinalizeReq, Response, ResponseView, BAD_REQUEST};
use crate::path::{parent, parent_path};
use crate::text::{joined3, opt_text};

verus! {

/// The extension of the finalized file.
pub open spec fn extension_or_default(extension: Option<Seq<char>>) -> Seq<char> {
    match extension {
        Some(extension) => extension,
        None => "webm"@,
    }
}

/// The step that lists the chunks of a session.
pub open spec fn lists_chunks(id: Seq<char>, output_path: Seq<char>) -> StepView {
    asks(PendingView::FinalizeList { id, output_path }, QueryView::ChunksInOrder { session_id: id })
}

/// The first step of finalizing a session.
pub open spec fn finalize(
    config: ConfigView,
    id: Seq<char>,
    extension: Option<Seq<char>>,
) -> StepView {
    let output_path = output_file(config.data_dir, id, extension_or_default(extension));
    match parent(output_path) {
        Some(path) => works(
            PendingView::FinalizeDir { id, output_path },
            DiskOpView::CreateDirAll { path },
        ),
        None => lists_chunks(id, output_path),
    }
}

/// The first step of finalizing the session with a token.
pub open spec fn finalize_token(token: Seq<char>, extension: Option<Seq<char>>) -> StepView {
    asks(PendingView::FinalizeResolve { extension }, QueryView::SessionIdByToken { token })
}

/// After the session of the token was looked up.
pub open spec fn finalize_resolved(
    config: ConfigView,
    extension: Option<Seq<char>>,
    reply: ReplyView,
) -> StepView {
    match session_of_token(reply) {
        Ok(id) => finalize(config, id, extension),
        Err(failure) => fails(failure),
    }
}

/// After the directory of the output was made.
pub open spec fn finalize_dir_made(
    id: Seq<char>,
    output_path: Seq<char>,
    reply: ReplyView,
) -> StepView {
    match reply {
        ReplyView::Done => lists_chunks(id, output_path),
        ReplyView::Failed(message) => breaks(message),
        _ => astray(),
    }
}

/// The files of listed chunks, in the order of the list.
pub open spec fn chunk_paths(chunks: Seq<ListedChunkView>) -> Seq<Seq<char>> {
    Seq::new(chunks.len(), |i: int| chunks[i].file_path)
}

/// After the chunks were listed.
pub open spec fn finalize_listed(
    id: Seq<char>,
    output_path: Seq<char>,
    reply: ReplyView,
) -> StepView {
    match reply {
        ReplyView::Chunks(chunks) => if chunks.len() == 0 {
            refuses(BAD_REQUEST, "no chunks uploaded"@)
        } else {
            works(
                PendingView::FinalizeOpen {
                    assembly: AssemblyView {
                        id,
                        output_path,
                        files: chunk_paths(chunks),
                        next: 0,
                    },
                },
                DiskOpView::OpenOutput { path: output_path },
            )
        },
        ReplyView::Failed(message) => breaks(message),
        _ => astray(),
    }
}

/// The step that goes on with the next chunk, or closes the output where none is left.
pub open spec fn next_chunk(assembly: AssemblyView) -> StepView {
    if assembly.next < assembly.files.len() {
        works(
            PendingView::FinalizeRead {
                assembly: AssemblyView { next: assembly.next + 1, ..assembly },
            },
            DiskOpView::ReadFile { path: assembly.files[assembly.next] },
        )
    } else {
        works(
            PendingView::FinalizeFlush { id: assembly.id, output_path: assembly.output_path },
            DiskOpView::FlushOutput,
        )
    }
}

/// After the output was opened.
pub open spec fn finalize_opened(assembly: AssemblyView, reply: ReplyView) -> StepView {
    match reply {
        ReplyView::Done => next_chunk(assembly),
        ReplyView::Failed(message) => breaks(message),
        _ => astray(),
    }
}

/// After a chunk was read.
pub open spec fn finalize_chunk_read(assembly: AssemblyView, reply: ReplyView) -> StepView {
    match reply {
        ReplyView::Bytes(bytes) => works(
            PendingView::FinalizeWrite { assembly },
            DiskOpView::WriteOutput { bytes },
        ),
        ReplyView::Failed(message) => breaks(message),
        _ => astray(),
    }
}

/// After a chunk was appended to the output.
pub open spec fn finalize_chunk_written(assembly: AssemblyView, reply: ReplyView) -> StepView {
    match reply {
        ReplyView::Done => next_chunk(assembly),
        ReplyView::Failed(message) => breaks(message),
        _ => astray(),
    }
}

/// After the output was brought to the disk.
pub open spec fn finalize_flushed(
    id: Seq<char>,
    output_path: Seq<char>,
    reply: ReplyView,
) -> StepView {
    match reply {
        ReplyView::Done => asks(
            PendingView::FinalizeMark { id },
            QueryView::FinalizeSession { output_path, id },
        ),
        ReplyView::Failed(message) => breaks(message),
        _ => astray(),
    }
}

/// After the session was marked as finalized.
pub open spec fn finalize_marked(id: Seq<char>, reply: ReplyView) -> StepView {
    match reply {
        ReplyView::Done => asks(PendingView::FinalizeToken, QueryView::SecretTokenById { id }),
        ReplyView::Failed(message) => breaks(message),
        _ => astray(),
    }
}

/// After the token of the session was looked up.
pub open spec fn finalize_token_found(reply: ReplyView) -> StepView {
    match token_of_session(reply) {
        Ok(token) => answers(ResponseView::Text("finalized: /r/"@ + token + "/file"@)),
        Err(failure) => fails(failure),
    }
}

fn list_chunks(id: String, output_path: String) -> (step: Step)
    ensures
        step@ == lists_chunks(id@, output_path@),
{
    let query = Query::ChunksInOrder { session_id: id.clone() };
    ask(Pending::FinalizeList { id, output_path }, query)
}

/// Starts finalizing a session.
pub fn finalize_by_session_id(config: &AppConfig, id: String, req: FinalizeReq) -> (step: Step)
    ensures
        step@ == finalize(config@, id@, opt_text(req.extension)),
{
    let extension = match req.extension {
        Some(extension) => extension,
        None => "webm".to_owned(),
    };
    let output_path = output_file_path(config.data_dir.as_str(), id.as_str(), extension.as_str());
    match parent_path(output_path.as_str()) {
        Some(path) => work(Pending::FinalizeDir { id, output_path }, DiskOp::CreateDirAll { path }),
        None => list_chunks(id, output_path),
    }
}

/// Answers a request to finalize by session id.
pub fn finalize_session(config: &AppConfig, id: String, req: FinalizeReq) -> (step: Step)
    ensures
        step@ == finalize(config@, id@, opt_text(req.extension)),
{
    finalize_by_session_id(config, id, req)
}

/// Answers a request to finalize by token.
pub fn finalize_by_token(token: String, req: FinalizeReq) -> (step: Step)
    ensures
        step@ == finalize_token(token@, opt_text(req.extension)),
{
    ask(Pending::FinalizeResolve { request: req }, Query::SessionIdByToken { token })
}

/// Goes on after the session of the token was looked up.
pub fn after_finalize_resolve(config: &AppConfig, req: FinalizeReq, reply: Reply) -> (step: Step)
    ensures
        step@ == finalize_resolved(config@, opt_text(req.extension), reply@),
{
    match find_session_id_by_token(reply) {
        Ok(id) => finalize_by_session_id(config, id, req),
        Err(failure) => fail(failure),
    }
}

/// Goes on after the directory of the output was made.
pub fn after_finalize_dir(id: String, output_path: String, reply: Reply) -> (step: Step)
    ensures
        step@ == finalize_dir_made(id@, output_path@, reply@),
{
    match reply {
        Reply::Done => list_chunks(id, output_path),
        Reply::Failed(message) => break_off(message),
        _ => go_astray(),
    }
}

fn files_of(chunks: &Vec<ListedChunk>) -> (files: Vec<String>)
    ensures
        texts(files@) == chunk_paths(crate::effect::listed(chunks@)),
{
    let mut files: Vec<String> = Vec::new();
    let mut i: usize = 0;
    while i < chunks.len()
        invariant
            i <= chunks@.len(),
            files@.len() == i,
            forall|k: int| 0 <= k < i ==> (#[trigger] files@[k])@ == chunks@[k].file_path@,
        decreases chunks@.len() - i,
    {
        files.push(chunks[i].file_path.clone());
        i = i + 1;
    }
    assert(texts(files@) =~= chunk_paths(crate::effect::listed(chunks@)));
    files
}

/// Goes on after the chunks were listed.
pub fn after_finalize_list(id: String, output_path: String, reply: Reply) -> (step: Step)
    ensures
        step@ == finalize_listed(id@, output_path@, reply@),
{
    match reply {
        Reply::Chunks(chunks) => {
            if chunks.len() == 0 {
                return refuse(BAD_REQUEST, "no chunks uploaded");
            }
            let files = files_of(&chunks);
            let path = output_path.clone();
            let assembly = Assembly { id, output_path, files, next: 0 };
            work(Pending::FinalizeOpen { assembly }, DiskOp::OpenOutput { path })
        },
        Reply::Failed(message) => break_off(message),
        _ => go_astray(),
    }
}

fn go_on_with_chunks(assembly: Assembly) -> (step: Step)
    ensures
        step@ == next_chunk(assembly@),
{
    if assembly.next < assembly.files.len() {
        let path = assembly.files[assembly.next].clone();
        let taken = Assembly {
            id: assembly.id,
            output_path: assembly.output_path,
            files: assembly.files,
            next: assembly.next + 1,
        };
        work(Pending::FinalizeRead { assembly: taken }, DiskOp::ReadFile { path })
    } else {
        work(
            Pending::FinalizeFlush { id: assembly.id, output_path: assembly.output_path },
            DiskOp::FlushOutput,
        )
    }
}

/// Goes on after the output was opened.
pub fn after_finalize_open(assembly: Assembly, reply: Reply) -> (step: Step)
    ensures
        step@ == finalize_opened(assembly@, reply@),
{
    match reply {
        Reply::Done => go_on_with_chunks(assembly),
        Reply::Failed(message) => break_off(message),
        _ => go_astray(),
    }
}

/// Goes on after a chunk was read.
pub fn after_finalize_read(assembly: Assembly, reply: Reply) -> (step: Step)
    ensures
        step@ == finalize_chunk_read(assembly@, reply@),
{
    match reply {
        Reply::Bytes(bytes) => work(
            Pending::FinalizeWrite { assembly },
            DiskOp::WriteOutput { bytes },
        ),
        Reply::Failed(message) => break_off(message),
        _ => go_astray(),
    }
}

/// Goes on after a chunk was appended to the output.
pub fn after_finalize_write(assembly: Assembly, reply: Reply) -> (step: Step)
    ensures
        step@ == finalize_chunk_written(assembly@, reply@),
{
    match reply {
        Reply::Done => go_on_with_chunks(assembly),
        Reply::Failed(message) => break_off(message),
        _ => go_astray(),
    }
}

/// Goes on after the output was brought to the disk.
pub fn after_finalize_flush(id: String, output_path: String, reply: Reply) -> (step: Step)
    ensures
        step@ == finalize_flushed(id@, output_path@, reply@),
{
    match reply {
        Reply::Done => {
            let query = Query::FinalizeSession { output_path, id: id.clone() };
            ask(Pending::FinalizeMark { id }, query)
        },
        Reply::Failed(message) => break_off(message),
        _ => go_astray(),
    }
}

/// Goes on after the session was marked as finalized.
pub fn after_finalize_mark(id: String, reply: Reply) -> (step: Step)
    ensures
        step@ == finalize_marked(id@, reply@),
{
    match reply {
        Reply::Done => ask(Pending::FinalizeToken, Query::SecretTokenById { id }),
        Reply::Failed(message) => break_off(message),
        _ => go_astray(),
    }
}

/// Ends the request after the token of the session was looked up.
pub fn after_finalize_token(reply: Reply) -> (step: Step)
    ensures
        step@ == finalize_token_found(reply@),
{
    match find_secret_token_by_session_id(reply) {
        Ok(token) => answer(Response::Text(joined3("finalized: /r/", token.as_str(), "/file"))),
        Err(failure) => fail(failure),
    }
}

} // verus!
