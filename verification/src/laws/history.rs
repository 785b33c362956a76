//! What holds of any number of requests, one after the other, of all kinds and to all sessions.
use vstd::prelude::*;

use crate::codec::{base64_bytes, digest_text};
use crate::config::ConfigView;
use crate::delete::{delete, delete_token};
use crate::download::{disposition, download_by_id, download_by_token, is_header_value};
use crate::finalize::{extension_or_default, finalize, finalize_token};
use crate::flow::StepView;
use crate::identity::{is_generated, IdentityView};
use crate::laws::delete::{
    law_delete_by_token_reaches_its_session, law_delete_by_unknown_token_is_refused,
    law_delete_keeps_other_sessions, law_delete_of_unknown_session_is_refused,
    law_deleted_session_is_gone, law_known_session_is_deleted,
};
use crate::laws::download::{
    law_download_by_id_plays_the_file, law_download_by_token_plays_the_file,
    law_download_by_unknown_token_is_refused, plays,
};
use crate::laws::finalize::{
    finalized, has_chunks, law_finalize_by_token_reaches_its_session,
    law_finalize_by_unknown_token_is_refused, law_finalize_keeps_what_is_stored,
    law_finalized_file_is_the_recording, law_session_with_chunks_is_finalized,
};
use crate::laws::recording::{in_order, law_recording_of_parts, stores_exactly};
use crate::laws::session::{
    law_created_session_is_open, law_get_gives_the_row, law_page_is_the_recorder,
};
use crate::laws::upload::{
    is_acceptable, law_acceptable_upload_is_answered, law_answered_upload_is_stored,
    law_failed_upload_records_nothing, law_upload_by_token_reaches_its_session,
    law_upload_by_unknown_token_is_refused, law_upload_keeps_what_is_stored, taken_in,
};
use crate::layout::is_name;
use crate::messages::{
    FailureView, OutcomeView, ResponseView, UploadChunkReqView, NOT_FOUND,
};
use crate::session::{create, get, page};
use crate::upload::{upload, upload_by_token};
use crate::world::{
    all_works, chunk_is_intact, ends, intact, is_file_name_part, keeps_chunks, keeps_session, opens,
    opens_some, recording, session_is_placed, sound, stored, World,
};

verus! {

/// A request of any kind.
pub enum RequestView {
    Create { identity: IdentityView, mime_type: Option<Seq<char>> },
    Get { id: Seq<char> },
    Upload { id: Seq<char>, req: UploadChunkReqView },
    UploadByToken { token: Seq<char>, req: UploadChunkReqView },
    Finalize { id: Seq<char>, extension: Option<Seq<char>> },
    FinalizeByToken { token: Seq<char>, extension: Option<Seq<char>> },
    Download { id: Seq<char> },
    DownloadByToken { token: Seq<char> },
    Delete { id: Seq<char> },
    DeleteByToken { token: Seq<char> },
    Page,
}

/// The first step of a request.
pub open spec fn first_step(config: ConfigView, request: RequestView) -> StepView {
    match request {
        RequestView::Create { identity, mime_type } => create(identity, mime_type),
        RequestView::Get { id } => get(id),
        RequestView::Upload { id, req } => upload(config, id, req),
        RequestView::UploadByToken { token, req } => upload_by_token(token, req),
        RequestView::Finalize { id, extension } => finalize(config, id, extension),
        RequestView::FinalizeByToken { token, extension } => finalize_token(token, extension),
        RequestView::Download { id } => download_by_id(id),
        RequestView::DownloadByToken { token } => download_by_token(token),
        RequestView::Delete { id } => delete(id),
        RequestView::DeleteByToken { token } => delete_token(token),
        RequestView::Page => page(config),
    }
}

/// Whether the texts of a request that become parts of paths are names: a new session has an
/// identity out of chance, chunks and finalized files go to an id that is a name, and an extension
/// is a part of a file's name.
pub open spec fn is_regular(request: RequestView) -> bool {
    match request {
        RequestView::Create { identity, .. } => is_generated(identity),
        RequestView::Upload { id, .. } => is_name(id),
        RequestView::Finalize { id, extension } => is_name(id) && is_file_name_part(
            extension_or_default(extension),
        ),
        RequestView::FinalizeByToken { extension, .. } => is_file_name_part(
            extension_or_default(extension),
        ),
        _ => true,
    }
}

/// Whether a request is one to delete the session `id`.
pub open spec fn deletes(w: World, request: RequestView, id: Seq<char>) -> bool {
    match request {
        RequestView::Delete { id: deleted } => deleted == id,
        RequestView::DeleteByToken { token } => opens(w, token, id),
        _ => false,
    }
}

/// Whether a request opens a session with this token.
pub open spec fn issues(request: RequestView, token: Seq<char>) -> bool {
    request matches RequestView::Create { identity, .. } && identity.secret_token == token
}

/// Whether a request opens a session with this id.
pub open spec fn creates(request: RequestView, id: Seq<char>) -> bool {
    request matches RequestView::Create { identity, .. } && identity.session_id == id
}

/// Whether a request is one to upload the chunk `req` to the session `id`.
pub open spec fn uploads(
    w: World,
    request: RequestView,
    id: Seq<char>,
    req: UploadChunkReqView,
) -> bool {
    match request {
        RequestView::Upload { id: target, req: sent } => target == id && sent == req,
        RequestView::UploadByToken { token, req: sent } => opens(w, token, id) && sent == req,
        _ => false,
    }
}

proof fn lemma_same_world_keeps(w: World, end: World)
    requires
        end == w,
    ensures
        keeps_chunks(w, end),
{
    assert forall|id: Seq<char>| #[trigger] keeps_session(w, end, id) by {}
}

proof fn lemma_create(
    config: ConfigView,
    w: World,
    identity: IdentityView,
    mime_type: Option<Seq<char>>,
    id: Seq<char>,
    smooth: bool,
    outcome: OutcomeView,
    end: World,
)
    requires
        sound(config, w),
        is_generated(identity),
        ends(config, create(identity, mime_type), w, smooth, outcome, end),
    ensures
        sound(config, end),
        keeps_session(w, end, id),
        forall|idx: u32| #[trigger] stored(end, id, idx) == stored(w, id, idx),
        forall|token: Seq<char>| #[trigger] opens(w, token, id) ==> opens(end, token, id),
{
    law_created_session_is_open(config, w, identity, mime_type, smooth, outcome, end);
    assert(keeps_session(w, end, id));
}

proof fn lemma_finalize_of_any(
    config: ConfigView,
    w: World,
    target: Seq<char>,
    extension: Option<Seq<char>>,
    id: Seq<char>,
    smooth: bool,
    outcome: OutcomeView,
    end: World,
)
    requires
        sound(config, w),
        is_name(target),
        is_file_name_part(extension_or_default(extension)),
        ends(config, finalize(config, target, extension), w, smooth, outcome, end),
    ensures
        sound(config, end),
        keeps_session(w, end, id),
        forall|idx: u32| #[trigger] stored(end, id, idx) == stored(w, id, idx),
        forall|token: Seq<char>| #[trigger] opens(w, token, id) ==> opens(end, token, id),
{
    law_finalize_keeps_what_is_stored(config, w, target, extension, smooth, outcome, end);
    assert(keeps_session(w, end, id));
    assert forall|token: Seq<char>| #[trigger] opens(w, token, id) implies opens(
        end,
        token,
        id,
    ) by {
        if id != target {
            assert(w.sessions.remove(target).contains_key(id));
            assert(end.sessions.remove(target).contains_key(id));
            assert(w.sessions.remove(target)[id] == end.sessions.remove(target)[id]);
        }
    }
}

/// No request loses a session's chunk or shuts out its token, whatever the request is and
/// whatever fails on its way, unless it deletes the session; the server's state stays sound; and
/// only an upload to the session adds a chunk to it, and only the one that it carries.
pub proof fn law_no_request_loses_a_chunk(
    config: ConfigView,
    w: World,
    request: RequestView,
    id: Seq<char>,
    smooth: bool,
    outcome: OutcomeView,
    end: World,
)
    requires
        sound(config, w),
        is_regular(request),
        !deletes(w, request, id),
        ends(config, first_step(config, request), w, smooth, outcome, end),
    ensures
        sound(config, end),
        keeps_session(w, end, id),
        forall|idx: u32|
            stored(w, id, idx) is Some ==> #[trigger] stored(end, id, idx) == stored(w, id, idx),
        forall|idx: u32| #[trigger]
            stored(end, id, idx) == stored(w, id, idx) || exists|req: UploadChunkReqView|
                req.idx == idx && #[trigger] uploads(w, request, id, req),
        forall|token: Seq<char>| #[trigger] opens(w, token, id) ==> opens(end, token, id),
{
    match request {
        RequestView::Create { identity, mime_type } => {
            lemma_create(config, w, identity, mime_type, id, smooth, outcome, end);
        },
        RequestView::Get { id: asked } => {
            law_get_gives_the_row(config, w, asked, smooth, outcome, end);
            lemma_same_world_keeps(w, end);
        },
        RequestView::Upload { id: target, req } => {
            law_upload_keeps_what_is_stored(config, w, target, req, smooth, outcome, end);
            assert(keeps_session(w, end, id));
            if target == id {
                assert(uploads(w, request, id, req));
            }
        },
        RequestView::UploadByToken { token, req } => {
            if opens_some(w, token) {
                let target = choose|target: Seq<char>| opens(w, token, target);
                assert(session_is_placed(config, w, target));
                law_upload_by_token_reaches_its_session(
                    config,
                    w,
                    token,
                    target,
                    req,
                    smooth,
                    outcome,
                    end,
                );
                if end == w {
                    lemma_same_world_keeps(w, end);
                } else {
                    law_upload_keeps_what_is_stored(config, w, target, req, smooth, outcome, end);
                }
                assert(keeps_session(w, end, id));
                if target == id {
                    assert(uploads(w, request, id, req));
                }
            } else {
                law_upload_by_unknown_token_is_refused(
                    config,
                    w,
                    token,
                    req,
                    smooth,
                    outcome,
                    end,
                );
                lemma_same_world_keeps(w, end);
            }
        },
        RequestView::Finalize { id: target, extension } => {
            lemma_finalize_of_any(config, w, target, extension, id, smooth, outcome, end);
        },
        RequestView::FinalizeByToken { token, extension } => {
            if opens_some(w, token) {
                let target = choose|target: Seq<char>| opens(w, token, target);
                assert(session_is_placed(config, w, target));
                law_finalize_by_token_reaches_its_session(
                    config,
                    w,
                    token,
                    target,
                    extension,
                    smooth,
                    outcome,
                    end,
                );
                if end == w {
                    lemma_same_world_keeps(w, end);
                } else {
                    lemma_finalize_of_any(config, w, target, extension, id, smooth, outcome, end);
                }
            } else {
                law_finalize_by_unknown_token_is_refused(
                    config,
                    w,
                    token,
                    extension,
                    smooth,
                    outcome,
                    end,
                );
                lemma_same_world_keeps(w, end);
            }
        },
        RequestView::Download { id: asked } => {
            law_download_by_id_plays_the_file(config, w, asked, smooth, outcome, end);
            lemma_same_world_keeps(w, end);
        },
        RequestView::DownloadByToken { token } => {
            if opens_some(w, token) {
                let target = choose|target: Seq<char>| opens(w, token, target);
                law_download_by_token_plays_the_file(
                    config,
                    w,
                    token,
                    target,
                    smooth,
                    outcome,
                    end,
                );
            } else {
                law_download_by_unknown_token_is_refused(config, w, token, smooth, outcome, end);
            }
            lemma_same_world_keeps(w, end);
        },
        RequestView::Delete { id: deleted } => {
            law_delete_keeps_other_sessions(config, w, deleted, id, smooth, outcome, end);
        },
        RequestView::DeleteByToken { token } => {
            if opens_some(w, token) {
                let target = choose|target: Seq<char>| opens(w, token, target);
                law_delete_by_token_reaches_its_session(
                    config,
                    w,
                    token,
                    target,
                    smooth,
                    outcome,
                    end,
                );
                if end == w {
                    lemma_same_world_keeps(w, end);
                } else {
                    law_delete_keeps_other_sessions(config, w, target, id, smooth, outcome, end);
                }
            } else {
                law_delete_by_unknown_token_is_refused(config, w, token, smooth, outcome, end);
                lemma_same_world_keeps(w, end);
            }
        },
        RequestView::Page => {
            law_page_is_the_recorder(config, w, smooth, outcome, end);
            lemma_same_world_keeps(w, end);
        },
    }
}

/// Every request keeps the server's state sound, a deletion too, whatever fails on its way.
pub proof fn law_every_request_keeps_the_state_sound(
    config: ConfigView,
    w: World,
    request: RequestView,
    smooth: bool,
    outcome: OutcomeView,
    end: World,
)
    requires
        sound(config, w),
        is_regular(request),
        ends(config, first_step(config, request), w, smooth, outcome, end),
    ensures
        sound(config, end),
{
    let deleted = match request {
        RequestView::Delete { id } => id,
        RequestView::DeleteByToken { token } => choose|id: Seq<char>| opens(w, token, id),
        _ => seq![],
    };
    let other = deleted.push('x');
    assert(other.len() != deleted.len());
    law_no_request_loses_a_chunk(config, w, request, other, smooth, outcome, end);
}

/// Requests that were run one after the other, each in the world that the one before it left, any
/// of them with effects that failed.
pub struct History {
    pub worlds: Seq<World>,
    pub requests: Seq<RequestView>,
    pub outcomes: Seq<OutcomeView>,
}

impl History {
    /// Whether this is a history of regular requests.
    pub open spec fn happened(self, config: ConfigView) -> bool {
        &&& self.worlds.len() == self.requests.len() + 1
        &&& self.outcomes.len() == self.requests.len()
        &&& forall|i: int| 0 <= i < self.requests.len() ==> #[trigger] self.ran(config, i)
    }

    /// Whether the request at `i` ran.
    pub open spec fn ran(self, config: ConfigView, i: int) -> bool {
        &&& is_regular(self.requests[i])
        &&& ends(
            config,
            first_step(config, self.requests[i]),
            self.worlds[i],
            false,
            self.outcomes[i],
            self.worlds[i + 1],
        )
    }

    /// Whether no request from `from` on is one to delete the session `id`.
    pub open spec fn spares(self, id: Seq<char>, from: int) -> bool {
        forall|i: int|
            from <= i < self.requests.len() ==> !deletes(
                #[trigger] self.worlds[i],
                self.requests[i],
                id,
            )
    }

    /// Whether the request at `i` uploaded the chunk `req` to the session `id` and was answered.
    pub open spec fn took_in(self, i: int, id: Seq<char>, req: UploadChunkReqView) -> bool {
        &&& 0 <= i < self.requests.len()
        &&& uploads(self.worlds[i], self.requests[i], id, req)
        &&& self.outcomes[i] is Ok
    }

    /// Whether an upload to the session `id` under this index was answered.
    pub open spec fn took_in_part(self, id: Seq<char>, idx: u32) -> bool {
        exists|i: int, req: UploadChunkReqView|
            req.idx == idx && #[trigger] self.took_in(i, id, req)
    }

    /// Whether an upload to the session `id` was answered under the index of each part.
    pub open spec fn took_in_all(self, id: Seq<char>, parts: Map<u32, Seq<u8>>) -> bool {
        forall|idx: u32| #[trigger] parts.contains_key(idx) ==> self.took_in_part(id, idx)
    }

    /// Whether the request at `i` uploaded the chunk `req` to the session `id` and was answered
    /// as having added it.
    pub open spec fn added(self, i: int, id: Seq<char>, req: UploadChunkReqView) -> bool {
        &&& self.took_in(i, id, req)
        &&& self.outcomes[i] matches Ok(ResponseView::Chunk(chunk))
        &&& !chunk.already_present
    }

    /// Whether every upload to the session `id` that was answered as having added its chunk
    /// carried one of the parts under its index.
    pub open spec fn adds_only(self, id: Seq<char>, parts: Map<u32, Seq<u8>>) -> bool {
        forall|i: int, req: UploadChunkReqView| #[trigger]
            self.added(i, id, req) ==> parts.contains_key(req.idx) && base64_bytes(req.data_b64)
                == Some(parts[req.idx])
    }

    /// Whether every upload to the session `id` from `from` on and before `to` that was answered as
    /// having added a chunk under the index `idx` carried `bytes`.
    pub open spec fn adds_nothing_but(
        self,
        id: Seq<char>,
        idx: u32,
        bytes: Seq<u8>,
        from: int,
        to: int,
    ) -> bool {
        forall|i: int, req: UploadChunkReqView|
            from <= i < to && req.idx == idx && #[trigger] self.added(i, id, req) ==> base64_bytes(
                req.data_b64,
            ) == Some(bytes)
    }

    /// Whether no request from `from` on opens a session with this token.
    pub open spec fn never_issues(self, token: Seq<char>, from: int) -> bool {
        forall|i: int|
            from <= i < self.requests.len() ==> !issues(#[trigger] self.requests[i], token)
    }

    /// Whether no request from `from` on opens a session with this id.
    pub open spec fn never_creates(self, id: Seq<char>, from: int) -> bool {
        forall|i: int|
            from <= i < self.requests.len() ==> !creates(#[trigger] self.requests[i], id)
    }

    /// Whether the request at `i` deleted the session `id` and was answered.
    pub open spec fn deleted(self, i: int, id: Seq<char>) -> bool {
        &&& 0 <= i < self.requests.len()
        &&& deletes(self.worlds[i], self.requests[i], id)
        &&& self.outcomes[i] is Ok
    }
}

/// A history keeps the server's state sound at every point.
pub proof fn law_history_keeps_the_state_sound(config: ConfigView, history: History, n: nat)
    requires
        history.happened(config),
        sound(config, history.worlds[0]),
        n < history.worlds.len(),
    ensures
        sound(config, history.worlds[n as int]),
    decreases n,
{
    if n > 0 {
        let i = n - 1;
        law_history_keeps_the_state_sound(config, history, i as nat);
        assert(history.ran(config, i));
        law_every_request_keeps_the_state_sound(
            config,
            history.worlds[i],
            history.requests[i],
            false,
            history.outcomes[i],
            history.worlds[i + 1],
        );
    }
}

proof fn lemma_session_is_kept(
    config: ConfigView,
    history: History,
    id: Seq<char>,
    from: nat,
    n: nat,
)
    requires
        history.happened(config),
        sound(config, history.worlds[0]),
        from <= n < history.worlds.len(),
        history.spares(id, from as int),
    ensures
        forall|idx: u32|
            stored(history.worlds[from as int], id, idx) is Some ==> #[trigger] stored(
                history.worlds[n as int],
                id,
                idx,
            ) == stored(history.worlds[from as int], id, idx),
        intact(history.worlds[from as int], id) ==> intact(history.worlds[n as int], id),
        forall|token: Seq<char>| #[trigger]
            opens(history.worlds[from as int], token, id) ==> opens(
                history.worlds[n as int],
                token,
                id,
            ),
    decreases n,
{
    if from < n {
        let i = n - 1;
        let start = history.worlds[from as int];
        let before = history.worlds[i];
        let after = history.worlds[n as int];
        lemma_session_is_kept(config, history, id, from, i as nat);
        law_history_keeps_the_state_sound(config, history, i as nat);
        assert(history.ran(config, i));
        law_no_request_loses_a_chunk(
            config,
            before,
            history.requests[i],
            id,
            false,
            history.outcomes[i],
            after,
        );
        assert forall|idx: u32| stored(start, id, idx) is Some implies #[trigger] stored(
            after,
            id,
            idx,
        ) == stored(start, id, idx) by {
            assert(stored(before, id, idx) == stored(start, id, idx));
        }
        assert forall|token: Seq<char>| #[trigger] opens(start, token, id) implies opens(
            after,
            token,
            id,
        ) by {
            assert(opens(before, token, id));
        }
    }
}

/// Already-recorded audio is not lost: what a session stores at some point is stored with the
/// same bytes at every later point, and its token still opens it, unless a request to delete it
/// came between; whatever else was requested, of this or any other session, and whatever failed.
pub proof fn law_stored_chunk_is_never_lost(
    config: ConfigView,
    history: History,
    id: Seq<char>,
    idx: u32,
    token: Seq<char>,
    from: nat,
    n: nat,
)
    requires
        history.happened(config),
        sound(config, history.worlds[0]),
        from <= n < history.worlds.len(),
        history.spares(id, from as int),
    ensures
        stored(history.worlds[from as int], id, idx) is Some ==> stored(
            history.worlds[n as int],
            id,
            idx,
        ) == stored(history.worlds[from as int], id, idx),
        opens(history.worlds[from as int], token, id) ==> opens(
            history.worlds[n as int],
            token,
            id,
        ),
{
    lemma_session_is_kept(config, history, id, from, n);
}

/// What an upload that is one to the session `id` does there.
proof fn lemma_upload_to_session(
    config: ConfigView,
    w: World,
    request: RequestView,
    id: Seq<char>,
    req: UploadChunkReqView,
    outcome: OutcomeView,
    end: World,
)
    requires
        sound(config, w),
        intact(w, id),
        is_regular(request),
        uploads(w, request, id, req),
        ends(config, first_step(config, request), w, false, outcome, end),
    ensures
        outcome is Ok ==> {
            &&& stored(end, id, req.idx) is Some
            &&& stored(w, id, req.idx) is None ==> stored(end, id, req.idx) == base64_bytes(
                req.data_b64,
            )
            &&& outcome == taken_in(
                req.idx,
                stored(w, id, req.idx) is Some,
                digest_text(stored(end, id, req.idx)->0),
            )
        },
        outcome is Err ==> stored(end, id, req.idx) == stored(w, id, req.idx),
{
    if let RequestView::UploadByToken { token, .. } = request {
        assert(session_is_placed(config, w, id));
        law_upload_by_token_reaches_its_session(config, w, token, id, req, false, outcome, end);
    }
    if end != w || ends(config, upload(config, id, req), w, false, outcome, end) {
        if outcome is Ok {
            law_answered_upload_is_stored(config, w, id, req, false, outcome, end);
        } else {
            law_failed_upload_records_nothing(config, w, id, req, false, outcome, end);
            law_upload_keeps_what_is_stored(config, w, id, req, false, outcome, end);
            let key = (id, req.idx as i64);
            if w.chunks.contains_key(key) {
                assert(chunk_is_intact(w, key));
            }
        }
    }
}

/// Under one index a session holds nothing or `bytes`, if it did at some point and every upload
/// that added a chunk under it since carried `bytes`.
proof fn lemma_index_holds(
    config: ConfigView,
    history: History,
    id: Seq<char>,
    idx: u32,
    bytes: Seq<u8>,
    from: nat,
    n: nat,
)
    requires
        history.happened(config),
        sound(config, history.worlds[0]),
        from <= n < history.worlds.len(),
        history.spares(id, from as int),
        intact(history.worlds[from as int], id),
        stored(history.worlds[from as int], id, idx) is None,
        history.adds_nothing_but(id, idx, bytes, from as int, n as int),
    ensures
        stored(history.worlds[n as int], id, idx) is None || stored(
            history.worlds[n as int],
            id,
            idx,
        ) == Some(bytes),
    decreases n,
{
    if from < n {
        let i = n - 1;
        let before = history.worlds[i];
        let after = history.worlds[n as int];
        assert(history.adds_nothing_but(id, idx, bytes, from as int, i));
        lemma_index_holds(config, history, id, idx, bytes, from, i as nat);
        law_history_keeps_the_state_sound(config, history, i as nat);
        lemma_session_is_kept(config, history, id, from, i as nat);
        assert(history.ran(config, i));
        law_no_request_loses_a_chunk(
            config,
            before,
            history.requests[i],
            id,
            false,
            history.outcomes[i],
            after,
        );
        if stored(before, id, idx) is None && stored(after, id, idx) is Some {
            let req = choose|req: UploadChunkReqView|
                req.idx == idx && #[trigger] uploads(before, history.requests[i], id, req);
            lemma_upload_to_session(
                config,
                before,
                history.requests[i],
                id,
                req,
                history.outcomes[i],
                after,
            );
            assert(history.added(i, id, req));
        }
    }
}

/// Sending a chunk again is safe at any later time, whatever was requested of this session or any
/// other in between and whatever failed, as long as the session is not deleted and nothing else is
/// uploaded under the index. However the first attempt ended, an attempt that nothing disturbs is
/// answered with the digest of the chunk's bytes, which are then stored; and if the first was
/// answered, the later one changes nothing and is answered as already present.
pub proof fn law_retry_is_safe_at_any_time(
    config: ConfigView,
    history: History,
    i: int,
    id: Seq<char>,
    req: UploadChunkReqView,
    bytes: Seq<u8>,
    n: nat,
    request: RequestView,
    again: OutcomeView,
    end: World,
)
    requires
        history.happened(config),
        sound(config, history.worlds[0]),
        0 <= i < n < history.worlds.len(),
        history.spares(id, i),
        intact(history.worlds[i], id),
        stored(history.worlds[i], id, req.idx) is None,
        is_acceptable(config, req, bytes),
        uploads(history.worlds[i], history.requests[i], id, req),
        history.adds_nothing_but(id, req.idx, bytes, i, n as int),
        is_regular(request),
        uploads(history.worlds[n as int], request, id, req),
        ends(config, first_step(config, request), history.worlds[n as int], true, again, end),
    ensures
        stored(end, id, req.idx) == Some(bytes),
        again == taken_in(
            req.idx,
            stored(history.worlds[n as int], id, req.idx) is Some,
            digest_text(bytes),
        ),
        history.outcomes[i] is Ok ==> stored(history.worlds[n as int], id, req.idx) is Some && end
            == history.worlds[n as int],
{
    let w = history.worlds[n as int];
    law_history_keeps_the_state_sound(config, history, i as nat);
    law_history_keeps_the_state_sound(config, history, n);
    lemma_session_is_kept(config, history, id, i as nat, n);
    lemma_index_holds(config, history, id, req.idx, bytes, i as nat, n);
    assert(history.ran(config, i));
    lemma_upload_to_session(
        config,
        history.worlds[i],
        history.requests[i],
        id,
        req,
        history.outcomes[i],
        history.worlds[i + 1],
    );
    assert(history.spares(id, i + 1));
    lemma_session_is_kept(config, history, id, (i + 1) as nat, n);
    if let RequestView::UploadByToken { token, .. } = request {
        assert(session_is_placed(config, w, id));
        law_upload_by_token_reaches_its_session(config, w, token, id, req, true, again, end);
    }
    law_acceptable_upload_is_answered(config, w, id, req, bytes, true, again, end);
    law_answered_upload_is_stored(config, w, id, req, true, again, end);
}

/// Whether a session holds some of the parts, each under its index, and nothing else.
spec fn holds_only(w: World, id: Seq<char>, parts: Map<u32, Seq<u8>>) -> bool {
    forall|idx: u32| #[trigger]
        stored(w, id, idx) is Some ==> parts.contains_key(idx) && stored(w, id, idx) == Some(
            parts[idx],
        )
}

proof fn lemma_holds_only(
    config: ConfigView,
    history: History,
    id: Seq<char>,
    parts: Map<u32, Seq<u8>>,
    n: nat,
)
    requires
        history.happened(config),
        sound(config, history.worlds[0]),
        intact(history.worlds[0], id),
        holds_only(history.worlds[0], id, parts),
        history.spares(id, 0),
        history.adds_only(id, parts),
        n < history.worlds.len(),
    ensures
        holds_only(history.worlds[n as int], id, parts),
    decreases n,
{
    if n > 0 {
        let i = n - 1;
        let before = history.worlds[i];
        let after = history.worlds[n as int];
        let request = history.requests[i];
        lemma_holds_only(config, history, id, parts, i as nat);
        law_history_keeps_the_state_sound(config, history, i as nat);
        lemma_session_is_kept(config, history, id, 0, i as nat);
        assert(history.ran(config, i));
        law_no_request_loses_a_chunk(
            config,
            before,
            request,
            id,
            false,
            history.outcomes[i],
            after,
        );
        assert forall|idx: u32| #[trigger] stored(after, id, idx) is Some implies
            parts.contains_key(idx) && stored(after, id, idx) == Some(parts[idx]) by {
            if stored(before, id, idx) is None {
                let req = choose|req: UploadChunkReqView|
                    req.idx == idx && #[trigger] uploads(before, request, id, req);
                lemma_upload_to_session(
                    config,
                    before,
                    request,
                    id,
                    req,
                    history.outcomes[i],
                    after,
                );
                assert(history.added(i, id, req));
            }
        }
    }
}

/// The recording of a session is what was sent to it. The parts may have any indices and may be
/// sent in any order and any number of times, with attempts that are refused or fail and with
/// other requests in between; of the uploads under one index, the first that is answered counts.
/// Once each part has been answered, the session stores exactly the parts, and its recording is
/// the parts one after the other by ascending index.
pub proof fn law_recording_is_what_was_sent(
    config: ConfigView,
    history: History,
    id: Seq<char>,
    parts: Map<u32, Seq<u8>>,
)
    requires
        history.happened(config),
        sound(config, history.worlds[0]),
        !has_chunks(history.worlds[0], id),
        history.spares(id, 0),
        history.adds_only(id, parts),
        history.took_in_all(id, parts),
    ensures
        stores_exactly(history.worlds.last(), id, parts),
        recording(history.worlds.last(), id) == in_order(parts),
        (exists|idx: u32| #[trigger] parts.contains_key(idx)) ==> has_chunks(
            history.worlds.last(),
            id,
        ),
{
    let last = history.worlds.last();
    let n = history.requests.len();
    lemma_holds_only(config, history, id, parts, n);
    assert forall|idx: u32| #[trigger] stored(last, id, idx) == (if parts.contains_key(idx) {
        Some(parts[idx])
    } else {
        None
    }) by {
        if parts.contains_key(idx) {
            assert(history.took_in_part(id, idx));
            let (i, req) = choose|i: int, req: UploadChunkReqView|
                req.idx == idx && #[trigger] history.took_in(i, id, req);
            law_history_keeps_the_state_sound(config, history, i as nat);
            lemma_session_is_kept(config, history, id, 0, i as nat);
            assert(history.ran(config, i));
            lemma_upload_to_session(
                config,
                history.worlds[i],
                history.requests[i],
                id,
                req,
                history.outcomes[i],
                history.worlds[i + 1],
            );
            assert(history.spares(id, i + 1));
            lemma_session_is_kept(config, history, id, (i + 1) as nat, n);
        }
    }
    law_recording_of_parts(last, id, parts);
    if exists|idx: u32| #[trigger] parts.contains_key(idx) {
        let idx = choose|idx: u32| #[trigger] parts.contains_key(idx);
        assert(stored(last, id, idx) is Some);
        assert(last.chunks.contains_key((id, idx as i64)));
    }
}

/// What was sent is played back: after such a history, finalizing the session and then playing
/// it, by its token or by its id, gives the parts one after the other by ascending index.
/// Both are answered if database and disk do their work.
pub proof fn law_what_was_sent_is_played_back(
    config: ConfigView,
    history: History,
    id: Seq<char>,
    token: Seq<char>,
    parts: Map<u32, Seq<u8>>,
    extension: Option<Seq<char>>,
    smooth: bool,
    outcome: OutcomeView,
    between: World,
    by_token: bool,
    smooth_play: bool,
    played: OutcomeView,
    end: World,
)
    requires
        history.happened(config),
        sound(config, history.worlds[0]),
        !has_chunks(history.worlds[0], id),
        history.spares(id, 0),
        exists|idx: u32| #[trigger] parts.contains_key(idx),
        history.adds_only(id, parts),
        history.took_in_all(id, parts),
        opens(history.worlds.last(), token, id),
        is_file_name_part(extension_or_default(extension)),
        ends(
            config,
            finalize_token(token, extension),
            history.worlds.last(),
            smooth,
            outcome,
            between,
        ),
        ends(
            config,
            if by_token {
                download_by_token(token)
            } else {
                download_by_id(id)
            },
            between,
            smooth_play,
            played,
            end,
        ),
    ensures
        smooth ==> outcome == finalized(token),
        outcome is Ok && played is Ok ==> played == plays(id, in_order(parts)),
        outcome is Ok && smooth_play && is_header_value(disposition(id)) ==> played is Ok,
{
    let last = history.worlds.last();
    law_recording_is_what_was_sent(config, history, id, parts);
    law_history_keeps_the_state_sound(config, history, history.requests.len());
    assert(session_is_placed(config, last, id));
    law_finalize_by_token_reaches_its_session(
        config,
        last,
        token,
        id,
        extension,
        smooth,
        outcome,
        between,
    );
    if ends(config, finalize(config, id, extension), last, smooth, outcome, between) {
        law_session_with_chunks_is_finalized(
            config,
            last,
            id,
            token,
            extension,
            smooth,
            outcome,
            between,
        );
        law_finalize_keeps_what_is_stored(config, last, id, extension, smooth, outcome, between);
        if outcome is Ok {
            law_finalized_file_is_the_recording(
                config,
                last,
                id,
                extension,
                smooth,
                outcome,
                between,
            );
            assert(opens(between, token, id));
            if by_token {
                law_download_by_token_plays_the_file(
                    config,
                    between,
                    token,
                    id,
                    smooth_play,
                    played,
                    end,
                );
            } else {
                law_download_by_id_plays_the_file(
                    config,
                    between,
                    id,
                    smooth_play,
                    played,
                    end,
                );
            }
        }
    }
}

/// A deleted recording cannot be played again: neither its token nor its id leads to it.
pub proof fn law_deleted_recording_is_not_played(
    config: ConfigView,
    w: World,
    id: Seq<char>,
    token: Seq<char>,
    smooth: bool,
    outcome: OutcomeView,
    between: World,
    by_token: bool,
    smooth_play: bool,
    played: OutcomeView,
    end: World,
)
    requires
        sound(config, w),
        opens(w, token, id),
        outcome is Ok,
        ends(config, delete_token(token), w, smooth, outcome, between),
        ends(
            config,
            if by_token {
                download_by_token(token)
            } else {
                download_by_id(id)
            },
            between,
            smooth_play,
            played,
            end,
        ),
    ensures
        played is Err,
        smooth_play ==> played == OutcomeView::Err(
            FailureView {
                status: NOT_FOUND,
                message: if by_token {
                    "recording not found"@
                } else {
                    "finalized file not found"@
                },
            },
        ),
{
    law_delete_by_token_reaches_its_session(config, w, token, id, smooth, outcome, between);
    law_deleted_session_is_gone(config, w, id, smooth, outcome, between);
    if by_token {
        law_download_by_unknown_token_is_refused(
            config,
            between,
            token,
            smooth_play,
            played,
            end,
        );
    } else {
        law_download_by_id_plays_the_file(config, between, id, smooth_play, played, end);
    }
}

/// Whether every session of `end` was one of `w`, with the same token.
spec fn adds_no_session(w: World, end: World) -> bool {
    forall|id: Seq<char>| #[trigger]
        end.sessions.contains_key(id) ==> w.sessions.contains_key(id)
            && end.sessions[id].secret_token == w.sessions[id].secret_token
}

proof fn lemma_finalize_adds_no_session(
    config: ConfigView,
    w: World,
    id: Seq<char>,
    extension: Option<Seq<char>>,
    smooth: bool,
    outcome: OutcomeView,
    end: World,
)
    requires
        sound(config, w),
        is_name(id),
        is_file_name_part(extension_or_default(extension)),
        ends(config, finalize(config, id, extension), w, smooth, outcome, end),
    ensures
        adds_no_session(w, end),
{
    law_finalize_keeps_what_is_stored(config, w, id, extension, smooth, outcome, end);
    assert forall|other: Seq<char>| #[trigger] end.sessions.contains_key(other) implies
        w.sessions.contains_key(other) && end.sessions[other].secret_token
        == w.sessions[other].secret_token by {
        if other != id {
            assert(end.sessions.remove(id).contains_key(other));
            assert(w.sessions.remove(id).contains_key(other));
            assert(end.sessions.remove(id)[other] == w.sessions.remove(id)[other]);
        }
    }
}

proof fn lemma_delete_adds_no_session(
    config: ConfigView,
    w: World,
    id: Seq<char>,
    smooth: bool,
    outcome: OutcomeView,
    end: World,
)
    requires
        sound(config, w),
        ends(config, delete(id), w, smooth, outcome, end),
    ensures
        adds_no_session(w, end),
{
    if !w.sessions.contains_key(id) {
        law_delete_of_unknown_session_is_refused(config, w, id, smooth, outcome, end);
    } else if outcome is Ok {
        law_deleted_session_is_gone(config, w, id, smooth, outcome, end);
    } else {
        law_known_session_is_deleted(config, w, id, all_works(smooth), outcome, end);
    }
}

/// Only a request for a new session adds a session or a token, and only the one that it carries.
pub proof fn law_only_creating_adds_a_session(
    config: ConfigView,
    w: World,
    request: RequestView,
    smooth: bool,
    outcome: OutcomeView,
    end: World,
)
    requires
        sound(config, w),
        is_regular(request),
        ends(config, first_step(config, request), w, smooth, outcome, end),
    ensures
        forall|id: Seq<char>| #[trigger]
            end.sessions.contains_key(id) ==> w.sessions.contains_key(id) || creates(request, id),
        forall|token: Seq<char>| #[trigger]
            opens_some(end, token) ==> opens_some(w, token) || issues(request, token),
{
    match request {
        RequestView::Create { identity, mime_type } => {
            law_created_session_is_open(config, w, identity, mime_type, smooth, outcome, end);
        },
        RequestView::Get { id } => {
            law_get_gives_the_row(config, w, id, smooth, outcome, end);
        },
        RequestView::Upload { id, req } => {
            law_upload_keeps_what_is_stored(config, w, id, req, smooth, outcome, end);
        },
        RequestView::UploadByToken { token, req } => {
            if opens_some(w, token) {
                let id = choose|id: Seq<char>| opens(w, token, id);
                assert(session_is_placed(config, w, id));
                law_upload_by_token_reaches_its_session(
                    config,
                    w,
                    token,
                    id,
                    req,
                    smooth,
                    outcome,
                    end,
                );
                if end != w {
                    law_upload_keeps_what_is_stored(config, w, id, req, smooth, outcome, end);
                }
            } else {
                law_upload_by_unknown_token_is_refused(
                    config,
                    w,
                    token,
                    req,
                    smooth,
                    outcome,
                    end,
                );
            }
        },
        RequestView::Finalize { id, extension } => {
            lemma_finalize_adds_no_session(config, w, id, extension, smooth, outcome, end);
        },
        RequestView::FinalizeByToken { token, extension } => {
            if opens_some(w, token) {
                let id = choose|id: Seq<char>| opens(w, token, id);
                assert(session_is_placed(config, w, id));
                law_finalize_by_token_reaches_its_session(
                    config,
                    w,
                    token,
                    id,
                    extension,
                    smooth,
                    outcome,
                    end,
                );
                if end != w {
                    lemma_finalize_adds_no_session(
                        config,
                        w,
                        id,
                        extension,
                        smooth,
                        outcome,
                        end,
                    );
                }
            } else {
                law_finalize_by_unknown_token_is_refused(
                    config,
                    w,
                    token,
                    extension,
                    smooth,
                    outcome,
                    end,
                );
            }
        },
        RequestView::Download { id } => {
            law_download_by_id_plays_the_file(config, w, id, smooth, outcome, end);
        },
        RequestView::DownloadByToken { token } => {
            if opens_some(w, token) {
                let id = choose|id: Seq<char>| opens(w, token, id);
                law_download_by_token_plays_the_file(config, w, token, id, smooth, outcome, end);
            } else {
                law_download_by_unknown_token_is_refused(config, w, token, smooth, outcome, end);
            }
        },
        RequestView::Delete { id } => {
            lemma_delete_adds_no_session(config, w, id, smooth, outcome, end);
        },
        RequestView::DeleteByToken { token } => {
            if opens_some(w, token) {
                let id = choose|id: Seq<char>| opens(w, token, id);
                law_delete_by_token_reaches_its_session(
                    config,
                    w,
                    token,
                    id,
                    smooth,
                    outcome,
                    end,
                );
                if end != w {
                    lemma_delete_adds_no_session(config, w, id, smooth, outcome, end);
                }
            } else {
                law_delete_by_unknown_token_is_refused(config, w, token, smooth, outcome, end);
            }
        },
        RequestView::Page => {
            law_page_is_the_recorder(config, w, smooth, outcome, end);
        },
    }
    assert forall|token: Seq<char>| #[trigger] opens_some(end, token) implies opens_some(w, token)
        || issues(request, token) by {
        let id = choose|id: Seq<char>| opens(end, token, id);
        if !(request is Create) {
            assert(adds_no_session(w, end));
            assert(opens(w, token, id));
        } else if !issues(request, token) {
            assert(opens(w, token, id));
        }
    }
}

/// A token that opens nothing opens nothing at any later point, unless a session is opened with
/// it; whatever else is requested and whatever fails.
pub proof fn law_closed_token_stays_closed(
    config: ConfigView,
    history: History,
    token: Seq<char>,
    from: nat,
    n: nat,
)
    requires
        history.happened(config),
        sound(config, history.worlds[0]),
        from <= n < history.worlds.len(),
        !opens_some(history.worlds[from as int], token),
        history.never_issues(token, from as int),
    ensures
        !opens_some(history.worlds[n as int], token),
    decreases n,
{
    if from < n {
        let i = n - 1;
        law_closed_token_stays_closed(config, history, token, from, i as nat);
        law_history_keeps_the_state_sound(config, history, i as nat);
        assert(history.ran(config, i));
        law_only_creating_adds_a_session(
            config,
            history.worlds[i],
            history.requests[i],
            false,
            history.outcomes[i],
            history.worlds[i + 1],
        );
        assert(!issues(history.requests[i], token));
    }
}

/// A session that is not in the database is not at any later point, unless one is opened with its
/// id; whatever else is requested and whatever fails.
pub proof fn law_unknown_session_stays_unknown(
    config: ConfigView,
    history: History,
    id: Seq<char>,
    from: nat,
    n: nat,
)
    requires
        history.happened(config),
        sound(config, history.worlds[0]),
        from <= n < history.worlds.len(),
        !history.worlds[from as int].sessions.contains_key(id),
        history.never_creates(id, from as int),
    ensures
        !history.worlds[n as int].sessions.contains_key(id),
    decreases n,
{
    if from < n {
        let i = n - 1;
        law_unknown_session_stays_unknown(config, history, id, from, i as nat);
        law_history_keeps_the_state_sound(config, history, i as nat);
        assert(history.ran(config, i));
        law_only_creating_adds_a_session(
            config,
            history.worlds[i],
            history.requests[i],
            false,
            history.outcomes[i],
            history.worlds[i + 1],
        );
        assert(!creates(history.requests[i], id));
    }
}

/// Directly after an answered deletion the session is gone and its token is closed.
proof fn lemma_after_deletion(
    config: ConfigView,
    history: History,
    i: int,
    id: Seq<char>,
    token: Seq<char>,
)
    requires
        history.happened(config),
        sound(config, history.worlds[0]),
        history.deleted(i, id),
    ensures
        !history.worlds[i + 1].sessions.contains_key(id),
        opens(history.worlds[i], token, id) ==> !opens_some(history.worlds[i + 1], token),
{
    let w = history.worlds[i];
    let outcome = history.outcomes[i];
    let end = history.worlds[i + 1];
    law_history_keeps_the_state_sound(config, history, i as nat);
    assert(history.ran(config, i));
    if let RequestView::DeleteByToken { token: used } = history.requests[i] {
        law_delete_by_token_reaches_its_session(config, w, used, id, false, outcome, end);
    }
    law_deleted_session_is_gone(config, w, id, false, outcome, end);
}

/// Whether a request is one under this token.
pub open spec fn is_under_token(request: RequestView, token: Seq<char>) -> bool {
    match request {
        RequestView::UploadByToken { token: used, .. } => used == token,
        RequestView::FinalizeByToken { token: used, .. } => used == token,
        RequestView::DownloadByToken { token: used } => used == token,
        RequestView::DeleteByToken { token: used } => used == token,
        _ => false,
    }
}

/// A deletion is permanent: at every later point, unless a session was opened with the token,
/// uploading, finalizing, playing and deleting under the token are refused as not found, and
/// change nothing.
pub proof fn law_deletion_is_permanent(
    config: ConfigView,
    history: History,
    i: int,
    id: Seq<char>,
    token: Seq<char>,
    n: nat,
    request: RequestView,
    smooth: bool,
    outcome: OutcomeView,
    end: World,
)
    requires
        history.happened(config),
        sound(config, history.worlds[0]),
        history.deleted(i, id),
        opens(history.worlds[i], token, id),
        history.never_issues(token, i + 1),
        i < n < history.worlds.len(),
        is_under_token(request, token),
        ends(config, first_step(config, request), history.worlds[n as int], smooth, outcome, end),
    ensures
        end == history.worlds[n as int],
        outcome is Err,
        smooth ==> outcome == OutcomeView::Err(
            FailureView {
                status: NOT_FOUND,
                message: if request is DownloadByToken {
                    "recording not found"@
                } else {
                    "session not found"@
                },
            },
        ),
{
    let w = history.worlds[n as int];
    lemma_after_deletion(config, history, i, id, token);
    law_closed_token_stays_closed(config, history, token, (i + 1) as nat, n);
    match request {
        RequestView::UploadByToken { req, .. } => {
            law_upload_by_unknown_token_is_refused(config, w, token, req, smooth, outcome, end);
        },
        RequestView::FinalizeByToken { extension, .. } => {
            law_finalize_by_unknown_token_is_refused(
                config,
                w,
                token,
                extension,
                smooth,
                outcome,
                end,
            );
        },
        RequestView::DownloadByToken { .. } => {
            law_download_by_unknown_token_is_refused(config, w, token, smooth, outcome, end);
        },
        _ => {
            law_delete_by_unknown_token_is_refused(config, w, token, smooth, outcome, end);
        },
    }
}

/// A deletion is permanent under the session's id too: at every later point, unless a session was
/// opened with the id, asking after it, playing and deleting it are refused as not found, and
/// change nothing.
pub proof fn law_deletion_is_permanent_by_id(
    config: ConfigView,
    history: History,
    i: int,
    id: Seq<char>,
    n: nat,
    request: RequestView,
    smooth: bool,
    outcome: OutcomeView,
    end: World,
)
    requires
        history.happened(config),
        sound(config, history.worlds[0]),
        history.deleted(i, id),
        history.never_creates(id, i + 1),
        i < n < history.worlds.len(),
        request == (RequestView::Get { id }) || request == (RequestView::Download { id })
            || request == (RequestView::Delete { id }),
        ends(config, first_step(config, request), history.worlds[n as int], smooth, outcome, end),
    ensures
        end == history.worlds[n as int],
        outcome is Err,
        smooth ==> outcome == OutcomeView::Err(
            FailureView {
                status: NOT_FOUND,
                message: if request is Download {
                    "finalized file not found"@
                } else {
                    "session not found"@
                },
            },
        ),
{
    let w = history.worlds[n as int];
    lemma_after_deletion(config, history, i, id, seq![]);
    law_unknown_session_stays_unknown(config, history, id, (i + 1) as nat, n);
    match request {
        RequestView::Get { .. } => {
            law_get_gives_the_row(config, w, id, smooth, outcome, end);
        },
        RequestView::Download { .. } => {
            law_download_by_id_plays_the_file(config, w, id, smooth, outcome, end);
        },
        _ => {
            law_delete_of_unknown_session_is_refused(config, w, id, smooth, outcome, end);
        },
    }
}

} // verus!
