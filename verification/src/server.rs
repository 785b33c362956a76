//! Going on with a request, whichever it is.
use vstd::prelude::*;

use crate::config::{AppConfig, ConfigView};
use crate::effect::{Reply, ReplyView};
use crate::flow::{Pending, PendingView, Step, StepView};
use crate::{delete, download, finalize, session, upload};

verus! {

/// The step that follows a reply.
pub open spec fn resumed(config: ConfigView, pending: PendingView, reply: ReplyView) -> StepView {
    match pending {
        PendingView::CreateInsert { identity } => session::create_inserted(
            config,
            identity,
            reply,
        ),
        PendingView::CreateDir { identity } => session::create_dir_made(identity, reply),
        PendingView::GetLookup => session::get_looked_up(reply),
        PendingView::UploadResolve { req } => upload::upload_resolved(config, req, reply),
        PendingView::UploadLookup { session_id, idx, bytes, sha256_hex } =>
            upload::upload_looked_up(config, session_id, idx, bytes, sha256_hex, reply),
        PendingView::UploadDir { chunk } => upload::upload_dir_made(chunk, reply),
        PendingView::UploadOpen { chunk } => upload::upload_opened(chunk, reply),
        PendingView::UploadWrite { written } => upload::upload_written(written, reply),
        PendingView::UploadFlush { written } => upload::upload_flushed(written, reply),
        PendingView::UploadRecord { idx, sha256_hex } => upload::upload_recorded(
            idx,
            sha256_hex,
            reply,
        ),
        PendingView::FinalizeResolve { extension } => finalize::finalize_resolved(
            config,
            extension,
            reply,
        ),
        PendingView::FinalizeDir { id, output_path } => finalize::finalize_dir_made(
            id,
            output_path,
            reply,
        ),
        PendingView::FinalizeList { id, output_path } => finalize::finalize_listed(
            id,
            output_path,
            reply,
        ),
        PendingView::FinalizeOpen { assembly } => finalize::finalize_opened(assembly, reply),
        PendingView::FinalizeRead { assembly } => finalize::finalize_chunk_read(assembly, reply),
        PendingView::FinalizeWrite { assembly } => finalize::finalize_chunk_written(
            assembly,
            reply,
        ),
        PendingView::FinalizeFlush { id, output_path } => finalize::finalize_flushed(
            id,
            output_path,
            reply,
        ),
        PendingView::FinalizeMark { id } => finalize::finalize_marked(id, reply),
        PendingView::FinalizeToken => finalize::finalize_token_found(reply),
        PendingView::DownloadById { id } => download::download_id_found(id, reply),
        PendingView::DownloadByToken => download::download_token_found(reply),
        PendingView::DownloadRead { session_id } => download::audio_response(session_id, reply),
        PendingView::DeleteResolve => delete::delete_resolved(reply),
        PendingView::DeleteLookup { session_id } => delete::delete_looked_up(session_id, reply),
        PendingView::DeleteList { session_id, output } => delete::delete_listed(
            config,
            session_id,
            output,
            reply,
        ),
        PendingView::DeleteFile { removal, path } => delete::delete_file_removed(
            config,
            removal,
            path,
            reply,
        ),
        PendingView::DeleteDir { session_id, output, fault } => delete::delete_dir_removed(
            config,
            session_id,
            output,
            fault,
            reply,
        ),
        PendingView::DeleteOutput { session_id, path, fault } => delete::delete_output_removed(
            config,
            session_id,
            path,
            fault,
            reply,
        ),
        PendingView::DeleteOutputList { session_id, fault } => delete::delete_outputs_listed(
            config,
            session_id,
            fault,
            reply,
        ),
        PendingView::DeleteLeftover { leftovers } => delete::delete_leftover_removed(
            config,
            leftovers,
            reply,
        ),
        PendingView::DeleteChunkRows { session_id } => delete::delete_chunk_rows_removed(
            session_id,
            reply,
        ),
        PendingView::DeleteSessionRow => delete::delete_session_row_removed(reply),
        PendingView::PageRead => session::page_read(reply),
    }
}

/// Goes on with a request, given the reply to the effect that it asked for.
pub fn resume(config: &AppConfig, pending: Pending, reply: Reply) -> (step: Step)
    ensures
        step@ == resumed(config@, pending@, reply@),
{
    match pending {
        Pending::CreateInsert { identity } => session::after_create_insert(
            config,
            identity,
            reply,
        ),
        Pending::CreateDir { identity } => session::after_create_dir(identity, reply),
        Pending::GetLookup => session::after_get_lookup(reply),
        Pending::UploadResolve { req } => upload::after_upload_resolve(config, req, reply),
        Pending::UploadLookup { session_id, idx, bytes, sha256_hex } =>
            upload::after_upload_lookup(config, session_id, idx, bytes, sha256_hex, reply),
        Pending::UploadDir { chunk } => upload::after_upload_dir(chunk, reply),
        Pending::UploadOpen { chunk } => upload::after_upload_open(chunk, reply),
        Pending::UploadWrite { written } => upload::after_upload_write(written, reply),
        Pending::UploadFlush { written } => upload::after_upload_flush(written, reply),
        Pending::UploadRecord { idx, sha256_hex } => upload::after_upload_record(
            idx,
            sha256_hex,
            reply,
        ),
        Pending::FinalizeResolve { request } => finalize::after_finalize_resolve(
            config,
            request,
            reply,
        ),
        Pending::FinalizeDir { id, output_path } => finalize::after_finalize_dir(
            id,
            output_path,
            reply,
        ),
        Pending::FinalizeList { id, output_path } => finalize::after_finalize_list(
            id,
            output_path,
            reply,
        ),
        Pending::FinalizeOpen { assembly } => finalize::after_finalize_open(assembly, reply),
        Pending::FinalizeRead { assembly } => finalize::after_finalize_read(assembly, reply),
        Pending::FinalizeWrite { assembly } => finalize::after_finalize_write(assembly, reply),
        Pending::FinalizeFlush { id, output_path } => finalize::after_finalize_flush(
            id,
            output_path,
            reply,
        ),
        Pending::FinalizeMark { id } => finalize::after_finalize_mark(id, reply),
        Pending::FinalizeToken => finalize::after_finalize_token(reply),
        Pending::DownloadById { id } => download::after_download_by_id(id, reply),
        Pending::DownloadByToken => download::after_download_by_token(reply),
        Pending::DownloadRead { session_id } => download::build_audio_response(session_id, reply),
        Pending::DeleteResolve => delete::after_delete_resolve(reply),
        Pending::DeleteLookup { session_id } => delete::after_delete_lookup(session_id, reply),
        Pending::DeleteList { session_id, output } => delete::after_delete_list(
            config,
            session_id,
            output,
            reply,
        ),
        Pending::DeleteFile { removal, path } => delete::after_delete_file(
            config,
            removal,
            path,
            reply,
        ),
        Pending::DeleteDir { session_id, output, fault } => delete::after_delete_dir(
            config,
            session_id,
            output,
            fault,
            reply,
        ),
        Pending::DeleteOutput { session_id, path, fault } => delete::after_delete_output(
            config,
            session_id,
            path,
            fault,
            reply,
        ),
        Pending::DeleteOutputList { session_id, fault } => delete::after_delete_output_list(
            config,
            session_id,
            fault,
            reply,
        ),
        Pending::DeleteLeftover { leftovers } => delete::after_delete_leftover(
            config,
            leftovers,
            reply,
        ),
        Pending::DeleteChunkRows { session_id } => delete::after_delete_chunk_rows(
            session_id,
            reply,
        ),
        Pending::DeleteSessionRow => delete::after_delete_session_row(reply),
        Pending::PageRead => session::after_page_read(reply),
    }
}

} // verus!
