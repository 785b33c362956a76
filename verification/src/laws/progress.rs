//! That every request comes to an end, and what it ends with where an effect fails.
use vstd::prelude::*;

use crate::config::ConfigView;
use crate::effect::{
    DiskOpView, EffectView, ListedChunkView, QueryView, RecordingView, ReplyView,
};
use crate::finalize::{extension_or_default, finalize};
use crate::flow::{PendingView, StepView};
use crate::laws::finalize::{finalized, has_chunks, is_finalized_into, law_finalize_succeeds};
use crate::laws::history::{first_step, RequestView};
use crate::laws::places::entry;
use crate::laws::removal::lemma_output_path_is_inside;
use crate::layout::{
    final_dir, inside, is_name, is_output_path, lemma_below_final_dir, output_file, session_dir,
};
use crate::messages::{
    FailureView, OutcomeView, SessionRowView, BAD_REQUEST, INTERNAL_SERVER_ERROR, NOT_FOUND,
    PAYLOAD_TOO_LARGE,
};
use crate::server::resumed;
use crate::world::{
    ends_where, fairly, intact, is_file_name_part, lists_in_order, must_fail, opens, opens_some,
    performs, query_must_fail, query_performs, runs, sound, ChunkRow, World,
};

verus! {

/// The step of a request after the first `n` of `replies`, if it wants that many.
pub open spec fn step_after(
    config: ConfigView,
    step: StepView,
    replies: spec_fn(nat) -> ReplyView,
    n: nat,
) -> StepView
    decreases n,
{
    if n == 0 {
        step
    } else {
        match step_after(config, step, replies, (n - 1) as nat) {
            StepView::Run { pending, .. } => resumed(config, pending, replies((n - 1) as nat)),
            ended => ended,
        }
    }
}

/// How far a request is from its end.
spec fn phase(step: StepView) -> nat {
    match step {
        StepView::Finish { .. } => 0,
        StepView::Run { pending, .. } => match pending {
            PendingView::CreateInsert { .. } => 2,
            PendingView::CreateDir { .. } => 1,
            PendingView::GetLookup => 1,
            PendingView::UploadResolve { .. } => 7,
            PendingView::UploadLookup { .. } => 6,
            PendingView::UploadDir { .. } => 5,
            PendingView::UploadOpen { .. } => 4,
            PendingView::UploadWrite { .. } => 3,
            PendingView::UploadFlush { .. } => 2,
            PendingView::UploadRecord { .. } => 1,
            PendingView::FinalizeResolve { .. } => 8,
            PendingView::FinalizeDir { .. } => 7,
            PendingView::FinalizeList { .. } => 6,
            PendingView::FinalizeOpen { .. } => 5,
            PendingView::FinalizeRead { .. } => 4,
            PendingView::FinalizeWrite { .. } => 4,
            PendingView::FinalizeFlush { .. } => 3,
            PendingView::FinalizeMark { .. } => 2,
            PendingView::FinalizeToken => 1,
            PendingView::DownloadById { .. } => 2,
            PendingView::DownloadByToken => 2,
            PendingView::DownloadRead { .. } => 1,
            PendingView::DeleteResolve => 10,
            PendingView::DeleteLookup { .. } => 9,
            PendingView::DeleteList { .. } => 8,
            PendingView::DeleteFile { .. } => 7,
            PendingView::DeleteDir { .. } => 6,
            PendingView::DeleteOutput { .. } => 5,
            PendingView::DeleteOutputList { .. } => 4,
            PendingView::DeleteLeftover { .. } => 3,
            PendingView::DeleteChunkRows { .. } => 2,
            PendingView::DeleteSessionRow => 1,
            PendingView::PageRead => 1,
        },
    }
}

/// How much of a list is left, counted by `weight` for each item.
spec fn left(len: nat, next: int, weight: nat) -> nat {
    if next <= len {
        ((len - next) * weight) as nat
    } else {
        0
    }
}

/// How far a request is from the end of a phase.
spec fn rest(step: StepView) -> nat {
    match step {
        StepView::Run { pending: PendingView::FinalizeRead { assembly }, .. } => left(
            assembly.files.len(),
            assembly.next,
            2,
        ) + 1,
        StepView::Run { pending: PendingView::FinalizeWrite { assembly }, .. } => left(
            assembly.files.len(),
            assembly.next,
            2,
        ),
        StepView::Run { pending: PendingView::DeleteFile { removal, .. }, .. } => left(
            removal.files.len(),
            removal.next,
            1,
        ),
        StepView::Run { pending: PendingView::DeleteLeftover { leftovers }, .. } => left(
            leftovers.entries.len(),
            leftovers.next,
            1,
        ),
        _ => 0,
    }
}

proof fn lemma_comes_nearer(config: ConfigView, step: StepView, reply: ReplyView)
    requires
        step is Run,
    ensures
        phase(resumed(config, step->pending, reply)) < phase(step) || (phase(
            resumed(config, step->pending, reply),
        ) == phase(step) && rest(resumed(config, step->pending, reply)) < rest(step)),
{
}

proof fn lemma_ends_from(
    config: ConfigView,
    step: StepView,
    replies: spec_fn(nat) -> ReplyView,
    n: nat,
) -> (end: nat)
    ensures
        step_after(config, step, replies, end) is Finish,
    decreases
            phase(step_after(config, step, replies, n)),
            rest(step_after(config, step, replies, n)),
{
    let reached = step_after(config, step, replies, n);
    if reached is Finish {
        n
    } else {
        lemma_comes_nearer(config, reached, replies(n));
        lemma_ends_from(config, step, replies, n + 1)
    }
}

/// Every request comes to an end, whatever the replies that it gets.
pub proof fn law_every_request_ends(
    config: ConfigView,
    request: RequestView,
    replies: spec_fn(nat) -> ReplyView,
)
    ensures
        exists|n: nat| #[trigger]
            step_after(config, first_step(config, request), replies, n) is Finish,
{
    let n = lemma_ends_from(config, first_step(config, request), replies, 0);
}

/// The chunks of a session with an index below `n`, by ascending index.
spec fn listed_below(w: World, id: Seq<char>, n: int) -> Seq<ListedChunkView>
    decreases n - i64::MIN,
{
    if n <= i64::MIN {
        seq![]
    } else {
        let before = listed_below(w, id, n - 1);
        let key = (id, (n - 1) as i64);
        if w.chunks.contains_key(key) {
            before.push(ListedChunkView { idx: key.1, file_path: w.chunks[key].file_path })
        } else {
            before
        }
    }
}

proof fn lemma_listed_below(w: World, id: Seq<char>, n: int)
    requires
        n <= i64::MAX + 1,
    ensures
        ({
            let list = listed_below(w, id, n);
            &&& forall|i: int, j: int| 0 <= i < j < list.len() ==> list[i].idx < list[j].idx
            &&& forall|i: int|
                0 <= i < list.len() ==> (#[trigger] list[i]).idx < n && w.chunks.contains_key(
                    (id, list[i].idx),
                ) && w.chunks[(id, list[i].idx)].file_path == list[i].file_path
            &&& forall|idx: i64| #[trigger]
                w.chunks.contains_key((id, idx)) && idx < n ==> exists|i: int|
                    0 <= i < list.len() && (#[trigger] list[i]).idx == idx
        }),
    decreases n - i64::MIN,
{
    if n > i64::MIN {
        lemma_listed_below(w, id, n - 1);
        let before = listed_below(w, id, n - 1);
        let list = listed_below(w, id, n);
        assert forall|idx: i64| #[trigger]
            w.chunks.contains_key((id, idx)) && idx < n implies exists|i: int|
            0 <= i < list.len() && (#[trigger] list[i]).idx == idx by {
            if idx == n - 1 {
                assert(list[list.len() - 1].idx == idx);
            } else {
                let i = choose|i: int| 0 <= i < before.len() && (#[trigger] before[i]).idx == idx;
                assert(list[i].idx == idx);
            }
        }
    }
}

proof fn lemma_chunks_can_be_listed(w: World, id: Seq<char>) -> (list: Seq<ListedChunkView>)
    ensures
        lists_in_order(w, id, list),
{
    lemma_listed_below(w, id, i64::MAX + 1);
    listed_below(w, id, i64::MAX + 1)
}

proof fn lemma_query_can_be_answered(w: World, query: QueryView) -> (r: (ReplyView, World))
    requires
        !(query is ChunkFiles) && !(query is DeleteChunks) && !(query is DeleteSession),
    ensures
        query_performs(w, query, r.0, r.1),
        !query_must_fail(w, query) ==> !(r.0 is Failed),
{
    if query_must_fail(w, query) {
        (ReplyView::Failed(""@), w)
    } else {
        match query {
            QueryView::InsertSession { id, mime_type, secret_token } => {
                let row = SessionRowView {
                    id,
                    status: "recording"@,
                    mime_type,
                    created_at: ""@,
                    completed_at: None,
                    output_path: None,
                    secret_token: Some(secret_token),
                };
                (ReplyView::Done, World { sessions: w.sessions.insert(id, row), ..w })
            },
            QueryView::SessionById { id } => (
                ReplyView::Session(
                    if w.sessions.contains_key(id) {
                        Some(w.sessions[id])
                    } else {
                        None
                    },
                ),
                w,
            ),
            QueryView::SessionIdByToken { token } => if opens_some(w, token) {
                let id = choose|id: Seq<char>| opens(w, token, id);
                (ReplyView::Value(Some(id)), w)
            } else {
                (ReplyView::Value(None), w)
            },
            QueryView::SecretTokenById { id } => (
                ReplyView::Column(
                    if w.sessions.contains_key(id) {
                        Some(w.sessions[id].secret_token)
                    } else {
                        None
                    },
                ),
                w,
            ),
            QueryView::OutputPathById { id } => (
                ReplyView::Column(
                    if w.sessions.contains_key(id) {
                        Some(w.sessions[id].output_path)
                    } else {
                        None
                    },
                ),
                w,
            ),
            QueryView::RecordingByToken { token } => if opens_some(w, token) {
                let id = choose|id: Seq<char>| opens(w, token, id);
                let output_path = w.sessions[id].output_path;
                (ReplyView::Recording(Some(RecordingView { session_id: id, output_path })), w)
            } else {
                (ReplyView::Recording(None), w)
            },
            QueryView::ChunkDigest { session_id, idx } => (
                ReplyView::Value(
                    if w.chunks.contains_key((session_id, idx)) {
                        Some(w.chunks[(session_id, idx)].sha256_hex)
                    } else {
                        None
                    },
                ),
                w,
            ),
            QueryView::InsertChunk { session_id, idx, byte_len, sha256_hex, file_path } => {
                let row = ChunkRow { byte_len, sha256_hex, file_path };
                (ReplyView::Done, World { chunks: w.chunks.insert((session_id, idx), row), ..w })
            },
            QueryView::ChunksInOrder { session_id } => {
                let list = lemma_chunks_can_be_listed(w, session_id);
                (ReplyView::Chunks(list), w)
            },
            QueryView::FinalizeSession { output_path, id } => if w.sessions.contains_key(id) {
                let row = SessionRowView {
                    status: "finalized"@,
                    completed_at: Some(""@),
                    output_path: Some(output_path),
                    ..w.sessions[id]
                };
                (ReplyView::Done, World { sessions: w.sessions.insert(id, row), ..w })
            } else {
                (ReplyView::Done, w)
            },
            _ => (ReplyView::Done, w),
        }
    }
}

proof fn lemma_work_can_be_done(w: World, op: DiskOpView) -> (r: (ReplyView, World))
    requires
        !(op is ListDir) && !(op is RemoveFile) && !(op is RemoveDirAll),
    ensures
        performs(w, EffectView::Disk(op), r.0, r.1),
        !must_fail(w, EffectView::Disk(op)) ==> !(r.0 is Failed),
{
    if must_fail(w, EffectView::Disk(op)) {
        (ReplyView::Failed(""@), w)
    } else {
        match op {
            DiskOpView::CreateDirAll { path } => (
                ReplyView::Done,
                World { dirs: w.dirs.insert(path), ..w },
            ),
            DiskOpView::OpenOutput { path } => (
                ReplyView::Done,
                World {
                    files: w.files.insert(path, seq![]),
                    open: Some(path),
                    written: seq![],
                    ..w
                },
            ),
            DiskOpView::WriteOutput { bytes } => (
                ReplyView::Done,
                World { written: w.written + bytes, ..w },
            ),
            DiskOpView::FlushOutput => (
                ReplyView::Done,
                World { files: w.files.insert(w.open->0, w.written), open: None, ..w },
            ),
            DiskOpView::ReadFile { path } => (ReplyView::Bytes(w.files[path]), w),
            DiskOpView::ReadText { path } => {
                let text = choose|text: Seq<char>| #[trigger]
                    vstd::utf8::encode_utf8(text) == w.files[path];
                (ReplyView::Page(text), w)
            },
            _ => (ReplyView::Done, w),
        }
    }
}

/// Whether a request is not on its way to delete a session.
spec fn is_no_deletion(step: StepView) -> bool {
    match step {
        StepView::Finish { .. } => true,
        StepView::Run { pending, effect } => {
            &&& match pending {
                PendingView::DeleteResolve => false,
                PendingView::DeleteLookup { .. } => false,
                PendingView::DeleteList { .. } => false,
                PendingView::DeleteFile { .. } => false,
                PendingView::DeleteDir { .. } => false,
                PendingView::DeleteOutput { .. } => false,
                PendingView::DeleteOutputList { .. } => false,
                PendingView::DeleteLeftover { .. } => false,
                PendingView::DeleteChunkRows { .. } => false,
                PendingView::DeleteSessionRow => false,
                _ => true,
            }
            &&& match effect {
                EffectView::Db(query) => !(query is ChunkFiles) && !(query is DeleteChunks) && !(
                query is DeleteSession),
                EffectView::Disk(op) => !(op is ListDir) && !(op is RemoveFile) && !(op is
                    RemoveDirAll),
            }
        },
    }
}

proof fn lemma_can_end(config: ConfigView, step: StepView, w: World) -> (r: (
    Seq<(ReplyView, World)>,
    OutcomeView,
    World,
))
    requires
        is_no_deletion(step),
    ensures
        runs(config, step, w, fairly(), r.0, r.1, r.2),
    decreases phase(step), rest(step),
{
    match step {
        StepView::Finish { outcome } => (seq![], outcome, w),
        StepView::Run { pending, effect } => {
            let first = match effect {
                EffectView::Db(query) => lemma_query_can_be_answered(w, query),
                EffectView::Disk(op) => lemma_work_can_be_done(w, op),
            };
            let next = resumed(config, pending, first.0);
            lemma_comes_nearer(config, step, first.0);
            assert(is_no_deletion(next));
            let (trace, outcome, end) = lemma_can_end(config, next, first.1);
            let whole = seq![first] + trace;
            assert(whole.drop_first() =~= trace);
            assert(whole[0] == first);
            (whole, outcome, end)
        },
    }
}

/// In every world, every request but a deletion can come to an end without a failure that does not
/// have to be.
pub proof fn law_request_can_end_fairly(config: ConfigView, w: World, request: RequestView)
    requires
        !(request is Delete) && !(request is DeleteByToken),
    ensures
        exists|outcome: OutcomeView, end: World| #[trigger]
            ends_where(config, first_step(config, request), w, fairly(), outcome, end),
{
    let step = first_step(config, request);
    let (trace, outcome, end) = lemma_can_end(config, step, w);
    assert(runs(config, step, w, fairly(), trace, outcome, end));
    assert(ends_where(config, step, w, fairly(), outcome, end));
}

/// A session that has a token and chunks, all of them on disk, can be finalized, also where the
/// directory of the finalized files is not there yet.
pub proof fn law_session_can_be_finalized(
    config: ConfigView,
    w: World,
    id: Seq<char>,
    token: Seq<char>,
    extension: Option<Seq<char>>,
)
    requires
        sound(config, w),
        has_chunks(w, id),
        intact(w, id),
        opens(w, token, id),
        is_file_name_part(extension_or_default(extension)),
        !w.dirs.contains(entry(config.data_dir, "final"@)),
    ensures
        exists|end: World|
            #![trigger ends_where(
                config,
                finalize(config, id, extension),
                w,
                fairly(),
                finalized(token),
                end,
            )]
            ends_where(
                config,
                finalize(config, id, extension),
                w,
                fairly(),
                finalized(token),
                end,
            ) && is_finalized_into(
                w,
                end,
                id,
                output_file(config.data_dir, id, extension_or_default(extension)),
            ),
{
    let step = finalize(config, id, extension);
    law_request_can_end_fairly(config, w, RequestView::Finalize { id, extension });
    let (outcome, end) = choose|outcome: OutcomeView, end: World| #[trigger]
        ends_where(config, step, w, fairly(), outcome, end);
    law_finalize_succeeds(config, w, id, token, extension, outcome, end);
    assert(ends_where(config, step, w, fairly(), finalized(token), end));
}

/// Whether a request is removing files, which goes on where a removal fails.
pub open spec fn is_removing(pending: PendingView) -> bool {
    match pending {
        PendingView::DeleteFile { .. } => true,
        PendingView::DeleteDir { .. } => true,
        PendingView::DeleteOutput { .. } => true,
        PendingView::DeleteOutputList { .. } => true,
        PendingView::DeleteLeftover { .. } => true,
        _ => false,
    }
}

/// An effect that fails, unless it is one that removes files, ends the request as the server's
/// failure, with what was said of the effect.
pub proof fn law_failed_effect_ends_the_request(
    config: ConfigView,
    pending: PendingView,
    message: Seq<char>,
)
    requires
        !is_removing(pending),
    ensures
        resumed(config, pending, ReplyView::Failed(message)) == (StepView::Finish {
            outcome: Err(FailureView { status: INTERNAL_SERVER_ERROR, message }),
        }),
        INTERNAL_SERVER_ERROR == 500,
{
}

/// What a deletion has to report of what failed so far.
pub open spec fn fault_of(step: StepView) -> Option<Seq<char>> {
    match step {
        StepView::Finish { outcome: Err(failure) } => Some(failure.message),
        StepView::Run { pending: PendingView::DeleteFile { removal, .. }, .. } => removal.fault,
        StepView::Run { pending: PendingView::DeleteDir { fault, .. }, .. } => fault,
        StepView::Run { pending: PendingView::DeleteOutput { fault, .. }, .. } => fault,
        StepView::Run { pending: PendingView::DeleteOutputList { fault, .. }, .. } => fault,
        StepView::Run { pending: PendingView::DeleteLeftover { leftovers }, .. } => leftovers.fault,
        _ => None,
    }
}

/// A deletion that has something to report keeps it to the end; the end comes without a change of
/// the database and is the server's failure with the first thing that was reported.
pub proof fn law_first_fault_is_reported(
    config: ConfigView,
    step: StepView,
    fault: Seq<char>,
    reply: ReplyView,
)
    requires
        step matches StepView::Run { pending, .. } && is_removing(pending),
        fault_of(step) == Some(fault),
        reply is Missing || reply is Failed || (if step->pending is DeleteOutputList {
            reply is Entries
        } else {
            reply is Done
        }),
    ensures
        ({
            let next = resumed(config, step->pending, reply);
            ||| next matches StepView::Run { pending, .. } && is_removing(pending) && fault_of(
                next,
            ) == Some(fault)
            ||| next == (StepView::Finish {
                outcome: Err(FailureView { status: INTERNAL_SERVER_ERROR, message: fault }),
            })
        }),
{
}

/// A directory, a listing or a leftover that cannot be dealt with is reported, unless something has
/// been reported before.
pub proof fn law_new_fault_is_reported(
    config: ConfigView,
    step: StepView,
    message: Seq<char>,
)
    requires
        step matches StepView::Run { pending, .. } && (pending is DeleteDir || pending is
            DeleteOutputList || pending is DeleteLeftover),
        fault_of(step) is None,
    ensures
        fault_of(resumed(config, step->pending, ReplyView::Failed(message))) == Some(message),
{
}

/// A file that cannot be removed is reported where nothing else would remove it: outside the
/// directory of the session for a chunk, and outside that of the finalized files for the recording.
/// A chunk inside the directory of the session is not, since it goes with the directory, and a
/// finalized file of the session is not, since it is found again among those.
pub proof fn law_stray_file_is_reported(
    config: ConfigView,
    step: StepView,
    message: Seq<char>,
)
    requires
        step is Run,
        fault_of(step) is None,
        step->pending is DeleteFile || step->pending is DeleteOutput,
    ensures
        ({
            let fault = fault_of(resumed(config, step->pending, ReplyView::Failed(message)));
            match step->pending {
                PendingView::DeleteFile { removal, path } => if inside(
                    path,
                    session_dir(config.data_dir, removal.session_id),
                ) {
                    fault is None
                } else {
                    fault == Some(message)
                },
                PendingView::DeleteOutput { session_id, path, .. } => is_name(session_id) ==> {
                    &&& !inside(path, final_dir(config.data_dir)) ==> fault == Some(message)
                    &&& forall|extension: Seq<char>|
                        path == #[trigger] output_file(config.data_dir, session_id, extension)
                            ==> fault is None
                },
                _ => true,
            }
        }),
{
    if let PendingView::DeleteOutput { session_id, path, .. } = step->pending {
        if is_name(session_id) {
            lemma_output_path_is_inside(config, session_id, path);
            assert forall|extension: Seq<char>|
                path == #[trigger] output_file(
                    config.data_dir,
                    session_id,
                    extension,
                ) implies is_output_path(config.data_dir, session_id, path) by {
                lemma_output_file_is_output_path(config, session_id, extension);
            }
        }
    }
}

proof fn lemma_output_file_is_output_path(
    config: ConfigView,
    id: Seq<char>,
    extension: Seq<char>,
)
    requires
        is_name(id),
    ensures
        is_output_path(config.data_dir, id, output_file(config.data_dir, id, extension)),
{
    reveal_strlit("");
    reveal_strlit(".");
    let head = output_file(config.data_dir, id, ""@);
    let file = output_file(config.data_dir, id, extension);
    assert(id.contains(id[0]));
    lemma_below_final_dir(config.data_dir, id + "."@ + ""@);
    lemma_below_final_dir(config.data_dir, id + "."@ + extension);
    assert(head =~= file.take(head.len() as int));
}

/// What can be wrong with a request has the status that HTTP has for it.
pub proof fn law_statuses_are_those_of_http()
    ensures
        BAD_REQUEST == 400,
        NOT_FOUND == 404,
        PAYLOAD_TOO_LARGE == 413,
        INTERNAL_SERVER_ERROR == 500,
{
}

} // verus!
