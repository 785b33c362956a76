//! What an upload does, whatever fails on its way.
use vstd::prelude::*;

use crate::codec::{base64_bytes, digest_text};
use crate::config::ConfigView;
use crate::effect::{DiskOpView, EffectView, QueryView};
use crate::flow::{NewChunkView, PendingView, StepView, WrittenChunkView};
use crate::laws::dirs::lemma_has_dir;
use crate::layout::{
    chunk_file, chunk_name, is_name, law_chunk_file_is_in_session_dir,
    law_chunk_file_stands_in_session_dir, law_chunk_files_are_distinct, plain, session_dir,
};
use crate::messages::{
    FailureView, OutcomeView, ResponseView, UploadChunkReqView, UploadChunkRespView, BAD_REQUEST,
    NOT_FOUND, PAYLOAD_TOO_LARGE,
};
use crate::outside::base64_fault;
use crate::path::parent;
use crate::upload::{upload, upload_by_token};
use crate::world::{
    all_works, chunk_is_intact, chunk_is_placed, ends, ends_where, fairly, has_dir, intact,
    keeps_chunks, keeps_chunks_of, keeps_session, lemma_step, lemma_step_where, opens, opens_some,
    same_files_but, server_failed, session_is_placed, sound, stored, ChunkRow, Works, World,
};

verus! {

/// Whether the text of an upload decodes to `bytes` and they are within the limit.
pub open spec fn is_acceptable(
    config: ConfigView,
    req: UploadChunkReqView,
    bytes: Seq<u8>,
) -> bool {
    base64_bytes(req.data_b64) == Some(bytes) && bytes.len() <= config.max_chunk_bytes
}

/// The response to an upload that was taken in.
pub open spec fn taken_in(idx: u32, already_present: bool, sha256_hex: Seq<char>) -> OutcomeView {
    Ok(ResponseView::Chunk(UploadChunkRespView { ok: true, idx, already_present, sha256_hex }))
}

/// An upload of a chunk that is known, and one of a chunk that is not, as far as the rows of the
/// chunks, the files and the outcome go.
spec fn upload_ends_well(
    config: ConfigView,
    w: World,
    id: Seq<char>,
    idx: u32,
    bytes: Seq<u8>,
    outcome: OutcomeView,
    end: World,
) -> bool {
    let key = (id, idx as i64);
    let file_path = chunk_file(config.data_dir, id, idx);
    if w.chunks.contains_key(key) {
        &&& outcome == taken_in(idx, true, w.chunks[key].sha256_hex)
        &&& end == w
    } else {
        &&& outcome == taken_in(idx, false, digest_text(bytes))
        &&& end.chunks == w.chunks.insert(
            key,
            ChunkRow {
                byte_len: bytes.len() as i64,
                sha256_hex: digest_text(bytes),
                file_path,
            },
        )
        &&& end.files.contains_key(file_path)
        &&& end.files[file_path] == bytes
    }
}

/// Whether an upload to the session `id` has to go well once its text is acceptable.
spec fn is_sure(works: Works, id: Seq<char>) -> bool {
    works == all_works(true) || (works == fairly() && plain(id))
}

/// Whether a chunk has been stored and answered, or the server has failed and it has not been.
spec fn writing_ends(
    chunk: NewChunkView,
    start: World,
    works: Works,
    outcome: OutcomeView,
    end: World,
) -> bool {
    &&& end.sessions == start.sessions
    &&& same_files_but(start.files, end.files, chunk.file_path)
    &&& {
        ||| {
            &&& outcome == taken_in(chunk.idx, false, chunk.sha256_hex)
            &&& end.chunks == start.chunks.insert(
                (chunk.session_id, chunk.idx as i64),
                ChunkRow {
                    byte_len: chunk.bytes.len() as i64,
                    sha256_hex: chunk.sha256_hex,
                    file_path: chunk.file_path,
                },
            )
            &&& end.files.contains_key(chunk.file_path)
            &&& end.files[chunk.file_path] == chunk.bytes
        }
        ||| {
            &&& server_failed(outcome)
            &&& !is_sure(works, chunk.session_id)
            &&& end.chunks == start.chunks
        }
    }
}

spec fn as_written(chunk: NewChunkView) -> WrittenChunkView {
    WrittenChunkView {
        session_id: chunk.session_id,
        idx: chunk.idx,
        byte_len: chunk.bytes.len() as i64,
        sha256_hex: chunk.sha256_hex,
        file_path: chunk.file_path,
    }
}

/// Brings a chunk that has been written to the disk and records it.
proof fn lemma_upload_recording(
    config: ConfigView,
    chunk: NewChunkView,
    start: World,
    w: World,
    works: Works,
    outcome: OutcomeView,
    end: World,
)
    requires
        !start.chunks.contains_key((chunk.session_id, chunk.idx as i64)),
        w.sessions == start.sessions,
        w.chunks == start.chunks,
        same_files_but(start.files, w.files, chunk.file_path),
        w.open == Some(chunk.file_path),
        w.written == chunk.bytes,
        ends_where(
            config,
            StepView::Run {
                pending: PendingView::UploadFlush { written: as_written(chunk) },
                effect: EffectView::Disk(DiskOpView::FlushOutput),
            },
            w,
            works,
            outcome,
            end,
        ),
    ensures
        writing_ends(chunk, start, works, outcome, end),
{
    let (r5, w5) = lemma_step_where(
        config,
        PendingView::UploadFlush { written: as_written(chunk) },
        EffectView::Disk(DiskOpView::FlushOutput),
        w,
        works,
        outcome,
        end,
    );
    assert(same_files_but(start.files, w5.files, chunk.file_path));
    if r5 is Done {
        let (r6, w6) = lemma_step_where(
            config,
            PendingView::UploadRecord { idx: chunk.idx, sha256_hex: chunk.sha256_hex },
            EffectView::Db(
                QueryView::InsertChunk {
                    session_id: chunk.session_id,
                    idx: chunk.idx as i64,
                    byte_len: chunk.bytes.len() as i64,
                    sha256_hex: chunk.sha256_hex,
                    file_path: chunk.file_path,
                },
            ),
            w5,
            works,
            outcome,
            end,
        );
    }
}

/// Writes a chunk to its file and records it, or fails before it is recorded.
proof fn lemma_upload_writing(
    config: ConfigView,
    chunk: NewChunkView,
    start: World,
    w: World,
    works: Works,
    outcome: OutcomeView,
    end: World,
)
    requires
        !start.chunks.contains_key((chunk.session_id, chunk.idx as i64)),
        w.sessions == start.sessions,
        w.chunks == start.chunks,
        w.files == start.files,
        is_sure(works, chunk.session_id) ==> works == all_works(true) || has_dir(
            w,
            chunk.file_path,
        ),
        ends_where(
            config,
            StepView::Run {
                pending: PendingView::UploadOpen { chunk },
                effect: EffectView::Disk(DiskOpView::OpenOutput { path: chunk.file_path }),
            },
            w,
            works,
            outcome,
            end,
        ),
    ensures
        writing_ends(chunk, start, works, outcome, end),
{
    let (r3, w3) = lemma_step_where(
        config,
        PendingView::UploadOpen { chunk },
        EffectView::Disk(DiskOpView::OpenOutput { path: chunk.file_path }),
        w,
        works,
        outcome,
        end,
    );
    assert(same_files_but(start.files, w3.files, chunk.file_path));
    if r3 is Done {
        let (r4, w4) = lemma_step_where(
            config,
            PendingView::UploadWrite { written: as_written(chunk) },
            EffectView::Disk(DiskOpView::WriteOutput { bytes: chunk.bytes }),
            w3,
            works,
            outcome,
            end,
        );
        assert(same_files_but(start.files, w4.files, chunk.file_path));
        if r4 is Done {
            assert(w4.written =~= chunk.bytes);
            lemma_upload_recording(config, chunk, start, w4, works, outcome, end);
        }
    }
}

proof fn lemma_upload_where(
    config: ConfigView,
    w: World,
    id: Seq<char>,
    req: UploadChunkReqView,
    bytes: Seq<u8>,
    works: Works,
    outcome: OutcomeView,
    end: World,
)
    requires
        is_acceptable(config, req, bytes),
        ends_where(config, upload(config, id, req), w, works, outcome, end),
    ensures
        end.sessions == w.sessions,
        same_files_but(w.files, end.files, chunk_file(config.data_dir, id, req.idx)),
        upload_ends_well(config, w, id, req.idx, bytes, outcome, end) || (server_failed(outcome)
            && !is_sure(works, id) && end.chunks == w.chunks),
        w.chunks.contains_key((id, req.idx as i64)) ==> end == w,
{
    let idx = req.idx;
    let sha256_hex = digest_text(bytes);
    let file_path = chunk_file(config.data_dir, id, idx);
    law_chunk_file_stands_in_session_dir(config.data_dir, id, idx);
    let dir = parent(file_path)->0;
    let chunk = NewChunkView { session_id: id, idx, bytes, sha256_hex, file_path };
    let (r1, w1) = lemma_step_where(
        config,
        PendingView::UploadLookup { session_id: id, idx, bytes, sha256_hex },
        EffectView::Db(QueryView::ChunkDigest { session_id: id, idx: idx as i64 }),
        w,
        works,
        outcome,
        end,
    );
    if !(r1 is Failed) && !w.chunks.contains_key((id, idx as i64)) {
        let (r2, w2) = lemma_step_where(
            config,
            PendingView::UploadDir { chunk },
            EffectView::Disk(DiskOpView::CreateDirAll { path: dir }),
            w1,
            works,
            outcome,
            end,
        );
        if r2 is Done {
            if plain(id) {
                law_chunk_file_is_in_session_dir(config.data_dir, id, idx);
                lemma_has_dir(w2, file_path, session_dir(config.data_dir, id), chunk_name(idx));
            }
            lemma_upload_writing(config, chunk, w, w2, works, outcome, end);
        }
    }
}

proof fn lemma_upload(
    config: ConfigView,
    w: World,
    id: Seq<char>,
    req: UploadChunkReqView,
    bytes: Seq<u8>,
    smooth: bool,
    outcome: OutcomeView,
    end: World,
)
    requires
        is_acceptable(config, req, bytes),
        ends(config, upload(config, id, req), w, smooth, outcome, end),
    ensures
        end.sessions == w.sessions,
        same_files_but(w.files, end.files, chunk_file(config.data_dir, id, req.idx)),
        upload_ends_well(config, w, id, req.idx, bytes, outcome, end) || (server_failed(outcome)
            && !smooth && end.chunks == w.chunks),
        w.chunks.contains_key((id, req.idx as i64)) ==> end == w,
{
    lemma_upload_where(config, w, id, req, bytes, all_works(smooth), outcome, end);
}

/// What a world keeps in which only the file of one chunk may differ and at most that chunk is
/// new.
proof fn lemma_upload_keeps(
    config: ConfigView,
    w: World,
    id: Seq<char>,
    idx: u32,
    bytes: Seq<u8>,
    outcome: OutcomeView,
    end: World,
)
    requires
        sound(config, w),
        is_name(id),
        end.sessions == w.sessions,
        same_files_but(w.files, end.files, chunk_file(config.data_dir, id, idx)),
        upload_ends_well(config, w, id, idx, bytes, outcome, end) || end.chunks == w.chunks,
        w.chunks.contains_key((id, idx as i64)) ==> end == w,
    ensures
        sound(config, end),
        keeps_chunks(w, end),
        forall|other_id: Seq<char>, other_idx: u32| #[trigger]
            stored(end, other_id, other_idx) == stored(w, other_id, other_idx) || (other_id == id
                && other_idx == idx),
{
    let key = (id, idx as i64);
    if w.chunks.contains_key(key) {
        assert(keeps_chunks(w, end));
    } else {
        assert forall|k: (Seq<char>, i64)| #[trigger] w.chunks.contains_key(k) implies
            w.chunks[k].file_path != chunk_file(config.data_dir, id, idx) by {
            assert(chunk_is_placed(config, w, k));
            if w.chunks[k].file_path == chunk_file(config.data_dir, id, idx) {
                law_chunk_files_are_distinct(config.data_dir, id, idx, k.0, k.1 as u32);
            }
        }
        assert forall|k: (Seq<char>, i64)| #[trigger] end.chunks.contains_key(k) implies
            chunk_is_placed(config, end, k) by {
            if k != key {
                assert(w.chunks.contains_key(k));
            }
        }
        assert forall|i: Seq<char>| #[trigger] end.sessions.contains_key(i) implies
            session_is_placed(config, end, i) by {
            assert(session_is_placed(config, w, i));
        }
        assert forall|token: Seq<char>, i: Seq<char>, other: Seq<char>| #[trigger]
            opens(end, token, i) && #[trigger] opens(end, token, other) implies i == other by {
            assert(opens(w, token, i) && opens(w, token, other));
        }
        assert forall|session_id: Seq<char>| #[trigger] keeps_session(w, end, session_id) by {
            assert(keeps_chunks_of(w, end, session_id));
            if intact(w, session_id) {
                assert forall|i: i64| #[trigger] end.chunks.contains_key((session_id, i)) implies
                    chunk_is_intact(end, (session_id, i)) by {
                    if (session_id, i) != key {
                        assert(w.chunks.contains_key((session_id, i)));
                        assert(chunk_is_intact(w, (session_id, i)));
                    }
                }
            }
        }
        assert forall|other_id: Seq<char>, other_idx: u32| #[trigger]
            stored(end, other_id, other_idx) == stored(w, other_id, other_idx) || (other_id == id
                && other_idx == idx) by {
            if w.chunks.contains_key((other_id, other_idx as i64)) {
                assert(end.chunks.contains_key((other_id, other_idx as i64)));
            }
        }
    }
}

/// An upload keeps the server's state sound, and every chunk that was stored before it, whatever
/// fails on its way.
pub proof fn law_upload_keeps_what_is_stored(
    config: ConfigView,
    w: World,
    id: Seq<char>,
    req: UploadChunkReqView,
    smooth: bool,
    outcome: OutcomeView,
    end: World,
)
    requires
        sound(config, w),
        is_name(id),
        ends(config, upload(config, id, req), w, smooth, outcome, end),
    ensures
        sound(config, end),
        keeps_chunks(w, end),
        end.sessions == w.sessions,
        forall|other_id: Seq<char>, other_idx: u32| #[trigger]
            stored(end, other_id, other_idx) == stored(w, other_id, other_idx) || (other_id == id
                && other_idx == req.idx),
        stored(w, id, req.idx) is Some ==> stored(end, id, req.idx) == stored(w, id, req.idx),
{
    if base64_bytes(req.data_b64) is None || base64_bytes(req.data_b64)->0.len()
        > config.max_chunk_bytes {
        assert(end == w);
    } else {
        let bytes = base64_bytes(req.data_b64)->0;
        lemma_upload(config, w, id, req, bytes, smooth, outcome, end);
        lemma_upload_keeps(config, w, id, req.idx, bytes, outcome, end);
    }
}

/// An upload whose text is not base64 is refused as a bad request, and nothing changes.
pub proof fn law_upload_of_no_base64_is_refused(
    config: ConfigView,
    w: World,
    id: Seq<char>,
    req: UploadChunkReqView,
    smooth: bool,
    outcome: OutcomeView,
    end: World,
)
    requires
        base64_bytes(req.data_b64) is None,
        ends(config, upload(config, id, req), w, smooth, outcome, end),
    ensures
        outcome == OutcomeView::Err(
            FailureView {
                status: BAD_REQUEST,
                message: "invalid base64: "@ + base64_fault(req.data_b64),
            },
        ),
        end == w,
{
}

/// An upload over the limit is refused as too large, and nothing changes.
pub proof fn law_upload_over_the_limit_is_refused(
    config: ConfigView,
    w: World,
    id: Seq<char>,
    req: UploadChunkReqView,
    bytes: Seq<u8>,
    smooth: bool,
    outcome: OutcomeView,
    end: World,
)
    requires
        base64_bytes(req.data_b64) == Some(bytes),
        bytes.len() > config.max_chunk_bytes,
        ends(config, upload(config, id, req), w, smooth, outcome, end),
    ensures
        outcome == OutcomeView::Err(
            FailureView {
                status: PAYLOAD_TOO_LARGE,
                message: "chunk too large for server limit"@,
            },
        ),
        end == w,
{
}

/// An upload that is answered as new has stored its bytes, and one that is answered as present
/// has not touched anything and gets the digest of what is stored. No other response is given.
pub proof fn law_answered_upload_is_stored(
    config: ConfigView,
    w: World,
    id: Seq<char>,
    req: UploadChunkReqView,
    smooth: bool,
    outcome: OutcomeView,
    end: World,
)
    requires
        sound(config, w),
        intact(w, id),
        is_name(id),
        outcome is Ok,
        ends(config, upload(config, id, req), w, smooth, outcome, end),
    ensures
        stored(end, id, req.idx) is Some,
        outcome == taken_in(
            req.idx,
            stored(w, id, req.idx) is Some,
            digest_text(stored(end, id, req.idx)->0),
        ),
        stored(w, id, req.idx) is None ==> stored(end, id, req.idx) == base64_bytes(req.data_b64),
        stored(w, id, req.idx) is Some ==> end == w,
{
    let bytes = base64_bytes(req.data_b64)->0;
    let key = (id, req.idx as i64);
    lemma_upload(config, w, id, req, bytes, smooth, outcome, end);
    lemma_upload_keeps(config, w, id, req.idx, bytes, outcome, end);
    if w.chunks.contains_key(key) {
        assert(chunk_is_intact(w, key));
    }
    assert(keeps_session(w, end, id));
    assert(end.chunks.contains_key(key));
    assert(chunk_is_intact(end, key));
}

/// An upload that is not answered has not entered its chunk into the database: the chunk can be
/// sent again as if it had never been sent.
pub proof fn law_failed_upload_records_nothing(
    config: ConfigView,
    w: World,
    id: Seq<char>,
    req: UploadChunkReqView,
    smooth: bool,
    outcome: OutcomeView,
    end: World,
)
    requires
        outcome is Err,
        ends(config, upload(config, id, req), w, smooth, outcome, end),
    ensures
        end.chunks == w.chunks,
        end.sessions == w.sessions,
        same_files_but(w.files, end.files, chunk_file(config.data_dir, id, req.idx)),
{
    if base64_bytes(req.data_b64) is Some && base64_bytes(req.data_b64)->0.len()
        <= config.max_chunk_bytes {
        lemma_upload(
            config,
            w,
            id,
            req,
            base64_bytes(req.data_b64)->0,
            smooth,
            outcome,
            end,
        );
    }
}

/// An acceptable upload is answered if database and disk do their work; if it is not answered,
/// that is the server's failure and not the client's.
pub proof fn law_acceptable_upload_is_answered(
    config: ConfigView,
    w: World,
    id: Seq<char>,
    req: UploadChunkReqView,
    bytes: Seq<u8>,
    smooth: bool,
    outcome: OutcomeView,
    end: World,
)
    requires
        is_acceptable(config, req, bytes),
        ends(config, upload(config, id, req), w, smooth, outcome, end),
    ensures
        smooth ==> outcome is Ok,
        outcome is Err ==> server_failed(outcome),
{
    lemma_upload(config, w, id, req, bytes, smooth, outcome, end);
}

/// An acceptable upload to a session is answered wherever nothing fails but what has to, whatever
/// directories are there.
pub proof fn law_acceptable_upload_succeeds(
    config: ConfigView,
    w: World,
    id: Seq<char>,
    req: UploadChunkReqView,
    bytes: Seq<u8>,
    outcome: OutcomeView,
    end: World,
)
    requires
        plain(id),
        is_acceptable(config, req, bytes),
        ends_where(config, upload(config, id, req), w, fairly(), outcome, end),
    ensures
        outcome == (if w.chunks.contains_key((id, req.idx as i64)) {
            taken_in(req.idx, true, w.chunks[(id, req.idx as i64)].sha256_hex)
        } else {
            taken_in(req.idx, false, digest_text(bytes))
        }),
        !w.chunks.contains_key((id, req.idx as i64)) ==> stored(end, id, req.idx) == Some(bytes)
            && chunk_is_intact(end, (id, req.idx as i64)),
{
    lemma_upload_where(config, w, id, req, bytes, fairly(), outcome, end);
}

/// Sending a chunk again is safe. However the first attempt ended, a second one that nothing
/// disturbs is answered with the digest of the chunk's bytes, which are then stored; and if the
/// first was answered, the second changes nothing and is answered as already present.
pub proof fn law_retry_is_safe(
    config: ConfigView,
    w: World,
    id: Seq<char>,
    req: UploadChunkReqView,
    bytes: Seq<u8>,
    smooth: bool,
    outcome: OutcomeView,
    between: World,
    again: OutcomeView,
    end: World,
)
    requires
        sound(config, w),
        intact(w, id),
        is_name(id),
        is_acceptable(config, req, bytes),
        stored(w, id, req.idx) is None,
        ends(config, upload(config, id, req), w, smooth, outcome, between),
        ends(config, upload(config, id, req), between, true, again, end),
    ensures
        again == taken_in(req.idx, outcome is Ok, digest_text(bytes)),
        stored(end, id, req.idx) == Some(bytes),
        outcome is Ok ==> end == between,
{
    law_upload_keeps_what_is_stored(config, w, id, req, smooth, outcome, between);
    assert(keeps_session(w, between, id));
    law_acceptable_upload_is_answered(config, between, id, req, bytes, true, again, end);
    law_answered_upload_is_stored(config, between, id, req, true, again, end);
    if outcome is Ok {
        law_answered_upload_is_stored(config, w, id, req, smooth, outcome, between);
    } else {
        law_failed_upload_records_nothing(config, w, id, req, smooth, outcome, between);
        let key = (id, req.idx as i64);
        if w.chunks.contains_key(key) {
            assert(chunk_is_intact(w, key));
        }
    }
}

/// An upload by token is an upload to the session that the token opens, unless the session
/// cannot be looked up.
pub proof fn law_upload_by_token_reaches_its_session(
    config: ConfigView,
    w: World,
    token: Seq<char>,
    id: Seq<char>,
    req: UploadChunkReqView,
    smooth: bool,
    outcome: OutcomeView,
    end: World,
)
    requires
        sound(config, w),
        opens(w, token, id),
        ends(config, upload_by_token(token, req), w, smooth, outcome, end),
    ensures
        ends(config, upload(config, id, req), w, smooth, outcome, end) || (!smooth && end == w
            && server_failed(outcome)),
{
    let (r, w1) = lemma_step(
        config,
        PendingView::UploadResolve { req },
        EffectView::Db(QueryView::SessionIdByToken { token }),
        w,
        smooth,
        outcome,
        end,
    );
}

/// An upload with a token that opens nothing is answered as not found, and nothing changes.
pub proof fn law_upload_by_unknown_token_is_refused(
    config: ConfigView,
    w: World,
    token: Seq<char>,
    req: UploadChunkReqView,
    smooth: bool,
    outcome: OutcomeView,
    end: World,
)
    requires
        !opens_some(w, token),
        ends(config, upload_by_token(token, req), w, smooth, outcome, end),
    ensures
        end == w,
        outcome is Err,
        smooth ==> outcome == OutcomeView::Err(
            FailureView { status: NOT_FOUND, message: "session not found"@ },
        ),
{
    let (r, w1) = lemma_step(
        config,
        PendingView::UploadResolve { req },
        EffectView::Db(QueryView::SessionIdByToken { token }),
        w,
        smooth,
        outcome,
        end,
    );
}

} // verus!
