//! What finalizing a recording does, whatever fails on its way.
use vstd::prelude::*;

use crate::config::ConfigView;
use crate::effect::{DiskOpView, EffectView, QueryView, ReplyView};
use crate::finalize::{chunk_paths, extension_or_default, finalize, finalize_token, next_chunk};
use crate::flow::{AssemblyView, PendingView, StepView};
use crate::laws::dirs::lemma_has_dir;
use crate::laws::recording::{
    contents, lemma_listed_files_hold_recording, lemma_recording_depends_on_stored,
};
use crate::layout::{
    final_dir, is_name, law_output_file_is_no_chunk_file, law_output_file_stands_in_final_dir,
    output_file,
};
use crate::messages::{FailureView, OutcomeView, ResponseView, BAD_REQUEST, NOT_FOUND};
use crate::path::parent;
use crate::world::{
    all_works, chunk_is_intact, chunk_is_placed, ends, ends_where, fairly, has_dir, intact,
    is_file_name_part, is_finalized_row, keeps_chunks, keeps_session, lemma_step, lemma_step_where,
    lists_in_order, opens, opens_some, recording, same_files_but, server_failed, session_is_placed,
    sound, stored, Works, World,
};

verus! {

/// Whether the database knows a chunk of the session.
pub open spec fn has_chunks(w: World, id: Seq<char>) -> bool {
    exists|idx: i64| #[trigger] w.chunks.contains_key((id, idx))
}

/// Whether a session with chunks and a token has to be finalized: everything does its work, or
/// nothing fails but what has to and the chunks are there.
spec fn is_sure(works: Works, ready: bool) -> bool {
    works == all_works(true) || (works == fairly() && ready)
}

/// Copies the chunks that are left into the output, up to the point where all are there (the
/// world at that point is given) or where the server fails.
proof fn lemma_copying(
    config: ConfigView,
    assembly: AssemblyView,
    start: World,
    w: World,
    works: Works,
    ready: bool,
    outcome: OutcomeView,
    end: World,
) -> (full: Option<World>)
    requires
        0 <= assembly.next <= assembly.files.len(),
        forall|i: int|
            0 <= i < assembly.files.len() ==> #[trigger] assembly.files[i] != assembly.output_path,
        forall|i: int|
            0 <= i < assembly.next ==> start.files.contains_key(#[trigger] assembly.files[i]),
        ready ==> forall|i: int|
            0 <= i < assembly.files.len() ==> start.files.contains_key(
                #[trigger] assembly.files[i],
            ),
        w.sessions == start.sessions,
        w.chunks == start.chunks,
        w.open == Some(assembly.output_path),
        same_files_but(start.files, w.files, assembly.output_path),
        w.written == contents(start.files, assembly.files, assembly.next as nat),
        ends_where(config, next_chunk(assembly), w, works, outcome, end),
    ensures
        full matches Some(w1) ==> {
            &&& forall|i: int|
                0 <= i < assembly.files.len() ==> start.files.contains_key(
                    #[trigger] assembly.files[i],
                )
            &&& w1.sessions == start.sessions
            &&& w1.chunks == start.chunks
            &&& w1.open == Some(assembly.output_path)
            &&& same_files_but(start.files, w1.files, assembly.output_path)
            &&& w1.written == contents(start.files, assembly.files, assembly.files.len())
            &&& ends_where(
                config,
                StepView::Run {
                    pending: PendingView::FinalizeFlush {
                        id: assembly.id,
                        output_path: assembly.output_path,
                    },
                    effect: EffectView::Disk(DiskOpView::FlushOutput),
                },
                w1,
                works,
                outcome,
                end,
            )
        },
        full is None ==> {
            &&& server_failed(outcome)
            &&& !is_sure(works, ready)
            &&& end.sessions == start.sessions
            &&& end.chunks == start.chunks
            &&& same_files_but(start.files, end.files, assembly.output_path)
        },
    decreases assembly.files.len() - assembly.next,
{
    if assembly.next < assembly.files.len() {
        let path = assembly.files[assembly.next];
        let taken = AssemblyView { next: assembly.next + 1, ..assembly };
        let (r1, w1) = lemma_step_where(
            config,
            PendingView::FinalizeRead { assembly: taken },
            EffectView::Disk(DiskOpView::ReadFile { path }),
            w,
            works,
            outcome,
            end,
        );
        if let ReplyView::Bytes(bytes) = r1 {
            assert(bytes == start.files[path]);
            let (r2, w2) = lemma_step_where(
                config,
                PendingView::FinalizeWrite { assembly: taken },
                EffectView::Disk(DiskOpView::WriteOutput { bytes }),
                w1,
                works,
                outcome,
                end,
            );
            if r2 is Done {
                assert(w2.written =~= contents(start.files, assembly.files, taken.next as nat));
                lemma_copying(config, taken, start, w2, works, ready, outcome, end)
            } else {
                None
            }
        } else {
            None
        }
    } else {
        Some(w)
    }
}

/// Whether a session has been finalized into the file `output_path`: the file holds the session's
/// recording, the session's row names it, and nothing else differs.
pub open spec fn is_finalized_into(
    w: World,
    end: World,
    id: Seq<char>,
    output_path: Seq<char>,
) -> bool {
    &&& end.files == w.files.insert(output_path, recording(w, id))
    &&& end.chunks == w.chunks
    &&& w.sessions.contains_key(id)
    &&& end.sessions.contains_key(id)
    &&& is_finalized_row(end.sessions[id], w.sessions[id], output_path)
    &&& end.sessions == w.sessions.insert(id, end.sessions[id])
}

/// The response to a request to finalize the session that `token` opens.
pub open spec fn finalized(token: Seq<char>) -> OutcomeView {
    Ok(ResponseView::Text("finalized: /r/"@ + token + "/file"@))
}

/// The ways in which a request to finalize ends.
spec fn finalize_ends(
    w: World,
    id: Seq<char>,
    output_path: Seq<char>,
    smooth: bool,
    outcome: OutcomeView,
    end: World,
) -> bool {
    // The server failed before the file was complete.
    ||| {
        &&& server_failed(outcome)
        &&& !smooth
        &&& end.sessions == w.sessions
        &&& end.chunks == w.chunks
        &&& same_files_but(w.files, end.files, output_path)
        &&& !has_chunks(w, id) ==> end.files == w.files
    }
    // There are no chunks.
    ||| {
        &&& !has_chunks(w, id)
        &&& outcome == OutcomeView::Err(
            FailureView { status: BAD_REQUEST, message: "no chunks uploaded"@ },
        )
        &&& end.sessions == w.sessions
        &&& end.chunks == w.chunks
        &&& end.files == w.files
    }
    // The file is complete, and the session is marked or there is none to mark.
    ||| {
        &&& has_chunks(w, id)
        &&& if w.sessions.contains_key(id) {
            is_finalized_into(w, end, id, output_path)
        } else {
            &&& end.sessions == w.sessions
            &&& end.chunks == w.chunks
            &&& end.files == w.files.insert(output_path, recording(w, id))
        }
        &&& {
            ||| server_failed(outcome) && !smooth
            ||| if w.sessions.contains_key(id) && w.sessions[id].secret_token is Some {
                outcome == finalized(w.sessions[id].secret_token->0)
            } else {
                outcome == OutcomeView::Err(
                    FailureView { status: NOT_FOUND, message: "secret token not found"@ },
                )
            }
        }
    }
}

proof fn lemma_finalize_listed(
    config: ConfigView,
    w: World,
    start: World,
    id: Seq<char>,
    output_path: Seq<char>,
    works: Works,
    ready: bool,
    outcome: OutcomeView,
    end: World,
)
    requires
        sound(config, w),
        is_name(id),
        exists|extension: Seq<char>|
            output_path == #[trigger] output_file(config.data_dir, id, extension),
        start.sessions == w.sessions,
        start.chunks == w.chunks,
        start.files == w.files,
        ready ==> has_dir(start, output_path) && intact(w, id),
        ends_where(
            config,
            StepView::Run {
                pending: PendingView::FinalizeList { id, output_path },
                effect: EffectView::Db(QueryView::ChunksInOrder { session_id: id }),
            },
            start,
            works,
            outcome,
            end,
        ),
    ensures
        finalize_ends(w, id, output_path, is_sure(works, ready), outcome, end),
{
    let extension = choose|extension: Seq<char>|
        output_path == #[trigger] output_file(config.data_dir, id, extension);
    let (r1, w1) = lemma_step_where(
        config,
        PendingView::FinalizeList { id, output_path },
        EffectView::Db(QueryView::ChunksInOrder { session_id: id }),
        start,
        works,
        outcome,
        end,
    );
    if let ReplyView::Chunks(list) = r1 {
        assert(lists_in_order(w, id, list));
        if list.len() == 0 {
            assert(!has_chunks(w, id));
        } else {
            assert(w.chunks.contains_key((id, list[0].idx)));
            let files = chunk_paths(list);
            let assembly = AssemblyView { id, output_path, files, next: 0 };
            assert forall|i: int| 0 <= i < files.len() implies #[trigger] files[i]
                != output_path by {
                let key = (id, list[i].idx);
                assert(w.chunks.contains_key(key));
                assert(chunk_is_placed(config, w, key));
                law_output_file_is_no_chunk_file(
                    config.data_dir,
                    id,
                    extension,
                    id,
                    list[i].idx as u32,
                );
            }
            let (r2, w2) = lemma_step_where(
                config,
                PendingView::FinalizeOpen { assembly },
                EffectView::Disk(DiskOpView::OpenOutput { path: output_path }),
                w1,
                works,
                outcome,
                end,
            );
            if ready {
                assert forall|i: int| 0 <= i < files.len() implies w.files.contains_key(
                    #[trigger] files[i],
                ) by {
                    assert(w.chunks.contains_key((id, list[i].idx)));
                    assert(chunk_is_intact(w, (id, list[i].idx)));
                }
            }
            if r2 is Done {
                let full = lemma_copying(config, assembly, w, w2, works, ready, outcome, end);
                if let Some(w3) = full {
                    assert forall|i: int| 0 <= i < list.len() implies w.files.contains_key(
                        (#[trigger] list[i]).file_path,
                    ) by {
                        assert(files[i] == list[i].file_path);
                    }
                    lemma_listed_files_hold_recording(config, w, id, list);
                    lemma_finalize_full(config, w, w3, id, output_path, works, ready, outcome, end);
                }
            }
        }
    }
}

proof fn lemma_finalize_full(
    config: ConfigView,
    w: World,
    full: World,
    id: Seq<char>,
    output_path: Seq<char>,
    works: Works,
    ready: bool,
    outcome: OutcomeView,
    end: World,
)
    requires
        has_chunks(w, id),
        full.sessions == w.sessions,
        full.chunks == w.chunks,
        full.open == Some(output_path),
        same_files_but(w.files, full.files, output_path),
        full.written == recording(w, id),
        ends_where(
            config,
            StepView::Run {
                pending: PendingView::FinalizeFlush { id, output_path },
                effect: EffectView::Disk(DiskOpView::FlushOutput),
            },
            full,
            works,
            outcome,
            end,
        ),
    ensures
        finalize_ends(w, id, output_path, is_sure(works, ready), outcome, end),
{
    let (r1, w1) = lemma_step_where(
        config,
        PendingView::FinalizeFlush { id, output_path },
        EffectView::Disk(DiskOpView::FlushOutput),
        full,
        works,
        outcome,
        end,
    );
    if r1 is Done {
        assert(w1.files =~= w.files.insert(output_path, recording(w, id)));
        let (r2, w2) = lemma_step_where(
            config,
            PendingView::FinalizeMark { id },
            EffectView::Db(QueryView::FinalizeSession { output_path, id }),
            w1,
            works,
            outcome,
            end,
        );
        if r2 is Done {
            let (r3, w3) = lemma_step_where(
                config,
                PendingView::FinalizeToken,
                EffectView::Db(QueryView::SecretTokenById { id }),
                w2,
                works,
                outcome,
                end,
            );
        }
    }
}

proof fn lemma_finalize_where(
    config: ConfigView,
    w: World,
    id: Seq<char>,
    extension: Option<Seq<char>>,
    works: Works,
    ready: bool,
    outcome: OutcomeView,
    end: World,
)
    requires
        sound(config, w),
        is_name(id),
        ready ==> is_file_name_part(extension_or_default(extension)) && intact(w, id),
        ends_where(config, finalize(config, id, extension), w, works, outcome, end),
    ensures
        finalize_ends(
            w,
            id,
            output_file(config.data_dir, id, extension_or_default(extension)),
            is_sure(works, ready),
            outcome,
            end,
        ),
{
    let output_path = output_file(config.data_dir, id, extension_or_default(extension));
    if let Some(path) = parent(output_path) {
        let (r1, w1) = lemma_step_where(
            config,
            PendingView::FinalizeDir { id, output_path },
            EffectView::Disk(DiskOpView::CreateDirAll { path }),
            w,
            works,
            outcome,
            end,
        );
        if r1 is Done {
            if ready {
                let extension = extension_or_default(extension);
                law_output_file_stands_in_final_dir(config.data_dir, id, extension);
                lemma_has_dir(
                    w1,
                    output_path,
                    final_dir(config.data_dir),
                    id.push('.') + extension,
                );
            }
            lemma_finalize_listed(config, w, w1, id, output_path, works, ready, outcome, end);
        }
    } else {
        if ready {
            law_output_file_stands_in_final_dir(
                config.data_dir,
                id,
                extension_or_default(extension),
            );
        }
        lemma_finalize_listed(config, w, w, id, output_path, works, ready, outcome, end);
    }
}

proof fn lemma_finalize(
    config: ConfigView,
    w: World,
    id: Seq<char>,
    extension: Option<Seq<char>>,
    smooth: bool,
    outcome: OutcomeView,
    end: World,
)
    requires
        sound(config, w),
        is_name(id),
        ends(config, finalize(config, id, extension), w, smooth, outcome, end),
    ensures
        finalize_ends(
            w,
            id,
            output_file(config.data_dir, id, extension_or_default(extension)),
            smooth,
            outcome,
            end,
        ),
{
    lemma_finalize_where(
        config,
        w,
        id,
        extension,
        all_works(smooth),
        false,
        outcome,
        end,
    );
}

/// A world in which only a finalized file and the row of its session differ keeps what is stored.
proof fn lemma_finalize_keeps(
    config: ConfigView,
    w: World,
    id: Seq<char>,
    extension: Seq<char>,
    end: World,
)
    requires
        sound(config, w),
        is_name(id),
        is_file_name_part(extension),
        end.chunks == w.chunks,
        same_files_but(w.files, end.files, output_file(config.data_dir, id, extension)),
        end.sessions == w.sessions || is_finalized_into(
            w,
            end,
            id,
            output_file(config.data_dir, id, extension),
        ),
    ensures
        sound(config, end),
        keeps_chunks(w, end),
        forall|other_id: Seq<char>, idx: u32| #[trigger]
            stored(end, other_id, idx) == stored(w, other_id, idx),
{
    let output_path = output_file(config.data_dir, id, extension);
    assert forall|k: (Seq<char>, i64)| #[trigger] w.chunks.contains_key(k) implies
        w.chunks[k].file_path != output_path by {
        assert(chunk_is_placed(config, w, k));
        law_output_file_is_no_chunk_file(config.data_dir, id, extension, k.0, k.1 as u32);
    }
    assert forall|k: (Seq<char>, i64)| #[trigger] end.chunks.contains_key(k) implies
        chunk_is_placed(config, end, k) by {
        assert(chunk_is_placed(config, w, k));
    }
    assert forall|i: Seq<char>| #[trigger] keeps_session(w, end, i) by {
        assert forall|idx: i64|
            intact(w, i) && #[trigger] end.chunks.contains_key((i, idx)) implies chunk_is_intact(
            end,
            (i, idx),
        ) by {
            assert(chunk_is_intact(w, (i, idx)));
        }
    }
    assert forall|i: Seq<char>| #[trigger] end.sessions.contains_key(i) implies
        session_is_placed(config, end, i) by {
        assert(w.sessions.contains_key(i));
        assert(session_is_placed(config, w, i));
    }
    assert forall|token: Seq<char>, i: Seq<char>, other: Seq<char>| #[trigger]
        opens(end, token, i) && #[trigger] opens(end, token, other) implies i == other by {
        assert(opens(w, token, i) && opens(w, token, other));
    }
    assert forall|other_id: Seq<char>, idx: u32| #[trigger]
        stored(end, other_id, idx) == stored(w, other_id, idx) by {
        assert(w.chunks.contains_key((other_id, idx as i64)) == end.chunks.contains_key(
            (other_id, idx as i64),
        ));
    }
}

/// Finalizing a session keeps the server's state sound, every stored chunk and every recording,
/// and the other sessions, whatever fails on its way.
pub proof fn law_finalize_keeps_what_is_stored(
    config: ConfigView,
    w: World,
    id: Seq<char>,
    extension: Option<Seq<char>>,
    smooth: bool,
    outcome: OutcomeView,
    end: World,
)
    requires
        sound(config, w),
        is_name(id),
        is_file_name_part(extension_or_default(extension)),
        ends(config, finalize(config, id, extension), w, smooth, outcome, end),
    ensures
        sound(config, end),
        keeps_chunks(w, end),
        end.chunks == w.chunks,
        same_files_but(
            w.files,
            end.files,
            output_file(config.data_dir, id, extension_or_default(extension)),
        ),
        forall|other_id: Seq<char>, idx: u32| #[trigger]
            stored(end, other_id, idx) == stored(w, other_id, idx),
        forall|other_id: Seq<char>| #[trigger] recording(end, other_id) == recording(w, other_id),
        end.sessions.remove(id) == w.sessions.remove(id),
        end.sessions.contains_key(id) == w.sessions.contains_key(id),
        end.sessions.contains_key(id) ==> end.sessions[id].secret_token
            == w.sessions[id].secret_token,
{
    let extension = extension_or_default(extension);
    let output_path = output_file(config.data_dir, id, extension);
    lemma_finalize(config, w, id, Some(extension), smooth, outcome, end);
    lemma_finalize_keeps(config, w, id, extension, end);
    assert(end.sessions.remove(id) =~= w.sessions.remove(id));
    assert forall|other_id: Seq<char>| #[trigger] recording(end, other_id) == recording(
        w,
        other_id,
    ) by {
        lemma_recording_depends_on_stored(end, w, other_id, 0x1_0000_0000);
    }
}

/// A session that was finalized has its recording, the bytes of its chunks by ascending index, in
/// one file; its row names that file; nothing else differs; and the response is the link to it.
pub proof fn law_finalized_file_is_the_recording(
    config: ConfigView,
    w: World,
    id: Seq<char>,
    extension: Option<Seq<char>>,
    smooth: bool,
    outcome: OutcomeView,
    end: World,
)
    requires
        sound(config, w),
        is_name(id),
        is_file_name_part(extension_or_default(extension)),
        outcome is Ok,
        ends(config, finalize(config, id, extension), w, smooth, outcome, end),
    ensures
        has_chunks(w, id),
        is_finalized_into(
            w,
            end,
            id,
            output_file(config.data_dir, id, extension_or_default(extension)),
        ),
        w.sessions[id].secret_token is Some,
        outcome == finalized(w.sessions[id].secret_token->0),
{
    lemma_finalize(config, w, id, extension, smooth, outcome, end);
}

/// A session is marked as finalized only when its file is complete, whatever fails.
pub proof fn law_session_is_marked_after_its_file(
    config: ConfigView,
    w: World,
    id: Seq<char>,
    extension: Option<Seq<char>>,
    smooth: bool,
    outcome: OutcomeView,
    end: World,
)
    requires
        sound(config, w),
        is_name(id),
        is_file_name_part(extension_or_default(extension)),
        ends(config, finalize(config, id, extension), w, smooth, outcome, end),
    ensures
        end.sessions == w.sessions || is_finalized_into(
            w,
            end,
            id,
            output_file(config.data_dir, id, extension_or_default(extension)),
        ),
{
    lemma_finalize(config, w, id, extension, smooth, outcome, end);
}

/// A session without chunks cannot be finalized: no file is made, no row changes, and the
/// request is refused as a bad one.
pub proof fn law_finalize_without_chunks_is_refused(
    config: ConfigView,
    w: World,
    id: Seq<char>,
    extension: Option<Seq<char>>,
    smooth: bool,
    outcome: OutcomeView,
    end: World,
)
    requires
        sound(config, w),
        is_name(id),
        !has_chunks(w, id),
        ends(config, finalize(config, id, extension), w, smooth, outcome, end),
    ensures
        end.sessions == w.sessions,
        end.chunks == w.chunks,
        end.files == w.files,
        outcome is Err,
        smooth ==> outcome == OutcomeView::Err(
            FailureView { status: BAD_REQUEST, message: "no chunks uploaded"@ },
        ),
{
    lemma_finalize(config, w, id, extension, smooth, outcome, end);
}

/// A session that has chunks and a token is finalized if database and disk do their work, and
/// only their failure keeps it from being answered.
pub proof fn law_session_with_chunks_is_finalized(
    config: ConfigView,
    w: World,
    id: Seq<char>,
    token: Seq<char>,
    extension: Option<Seq<char>>,
    smooth: bool,
    outcome: OutcomeView,
    end: World,
)
    requires
        sound(config, w),
        has_chunks(w, id),
        opens(w, token, id),
        ends(config, finalize(config, id, extension), w, smooth, outcome, end),
    ensures
        smooth ==> outcome == finalized(token),
        outcome is Err ==> server_failed(outcome),
{
    assert(session_is_placed(config, w, id));
    lemma_finalize(config, w, id, extension, smooth, outcome, end);
}

/// A session that has a token and chunks, all of them on disk, is finalized wherever nothing fails
/// but what has to, whatever directories are there: its recording is then in one file, and its row
/// names that file.
pub proof fn law_finalize_succeeds(
    config: ConfigView,
    w: World,
    id: Seq<char>,
    token: Seq<char>,
    extension: Option<Seq<char>>,
    outcome: OutcomeView,
    end: World,
)
    requires
        sound(config, w),
        has_chunks(w, id),
        intact(w, id),
        opens(w, token, id),
        is_file_name_part(extension_or_default(extension)),
        ends_where(config, finalize(config, id, extension), w, fairly(), outcome, end),
    ensures
        outcome == finalized(token),
        is_finalized_into(
            w,
            end,
            id,
            output_file(config.data_dir, id, extension_or_default(extension)),
        ),
{
    assert(session_is_placed(config, w, id));
    lemma_finalize_where(config, w, id, extension, fairly(), true, outcome, end);
}

/// Wherever nothing fails but what has to, a session without chunks is refused as a bad request, and
/// one whose chunks are there but that has no token, or is not in the database, is not found.
pub proof fn law_finalize_refuses(
    config: ConfigView,
    w: World,
    id: Seq<char>,
    extension: Option<Seq<char>>,
    outcome: OutcomeView,
    end: World,
)
    requires
        sound(config, w),
        is_name(id),
        intact(w, id),
        is_file_name_part(extension_or_default(extension)),
        ends_where(config, finalize(config, id, extension), w, fairly(), outcome, end),
    ensures
        !has_chunks(w, id) ==> outcome == OutcomeView::Err(
            FailureView { status: BAD_REQUEST, message: "no chunks uploaded"@ },
        ),
        has_chunks(w, id) && (!w.sessions.contains_key(id) || w.sessions[id].secret_token is None)
            ==> outcome == OutcomeView::Err(
            FailureView { status: NOT_FOUND, message: "secret token not found"@ },
        ),
{
    lemma_finalize_where(config, w, id, extension, fairly(), true, outcome, end);
}

/// A session that is not in the database, or has no token, is answered as having none, unless the
/// server fails. Its file has then been put together all the same, and its row, where there is
/// one, names the file.
pub proof fn law_finalize_without_token_is_not_found(
    config: ConfigView,
    w: World,
    id: Seq<char>,
    extension: Option<Seq<char>>,
    smooth: bool,
    outcome: OutcomeView,
    end: World,
)
    requires
        sound(config, w),
        is_name(id),
        has_chunks(w, id),
        !w.sessions.contains_key(id) || w.sessions[id].secret_token is None,
        ends(config, finalize(config, id, extension), w, smooth, outcome, end),
    ensures
        smooth ==> !server_failed(outcome),
        !server_failed(outcome) ==> outcome == OutcomeView::Err(
            FailureView { status: NOT_FOUND, message: "secret token not found"@ },
        ),
        !server_failed(outcome) && is_file_name_part(extension_or_default(extension)) ==> {
            let output_path = output_file(
                config.data_dir,
                id,
                extension_or_default(extension),
            );
            &&& end.files == w.files.insert(output_path, recording(w, id))
            &&& end.chunks == w.chunks
            &&& w.sessions.contains_key(id) ==> is_finalized_into(w, end, id, output_path)
            &&& !w.sessions.contains_key(id) ==> end.sessions == w.sessions
        },
{
    lemma_finalize(config, w, id, extension, smooth, outcome, end);
}

/// Finalizing a finalized session again gives the same response and the same files.
pub proof fn law_finalizing_again_changes_no_file(
    config: ConfigView,
    w: World,
    id: Seq<char>,
    extension: Option<Seq<char>>,
    smooth: bool,
    outcome: OutcomeView,
    between: World,
    smooth_again: bool,
    again: OutcomeView,
    end: World,
)
    requires
        sound(config, w),
        is_name(id),
        is_file_name_part(extension_or_default(extension)),
        outcome is Ok,
        again is Ok,
        ends(config, finalize(config, id, extension), w, smooth, outcome, between),
        ends(config, finalize(config, id, extension), between, smooth_again, again, end),
    ensures
        again == outcome,
        end.files == between.files,
        end.chunks == between.chunks,
{
    law_finalize_keeps_what_is_stored(config, w, id, extension, smooth, outcome, between);
    law_finalized_file_is_the_recording(config, w, id, extension, smooth, outcome, between);
    law_finalized_file_is_the_recording(config, between, id, extension, smooth_again, again, end);
    assert(recording(between, id) == recording(w, id));
    assert(end.files =~= between.files);
}

/// Finalizing by token is finalizing the session that the token opens, unless the session cannot
/// be looked up.
pub proof fn law_finalize_by_token_reaches_its_session(
    config: ConfigView,
    w: World,
    token: Seq<char>,
    id: Seq<char>,
    extension: Option<Seq<char>>,
    smooth: bool,
    outcome: OutcomeView,
    end: World,
)
    requires
        sound(config, w),
        opens(w, token, id),
        ends(config, finalize_token(token, extension), w, smooth, outcome, end),
    ensures
        ends(config, finalize(config, id, extension), w, smooth, outcome, end) || (!smooth && end
            == w && server_failed(outcome)),
{
    let (r, w1) = lemma_step(
        config,
        PendingView::FinalizeResolve { extension },
        EffectView::Db(QueryView::SessionIdByToken { token }),
        w,
        smooth,
        outcome,
        end,
    );
}

/// Finalizing with a token that opens nothing is answered as not found, and nothing changes.
pub proof fn law_finalize_by_unknown_token_is_refused(
    config: ConfigView,
    w: World,
    token: Seq<char>,
    extension: Option<Seq<char>>,
    smooth: bool,
    outcome: OutcomeView,
    end: World,
)
    requires
        !opens_some(w, token),
        ends(config, finalize_token(token, extension), w, smooth, outcome, end),
    ensures
        end == w,
        outcome is Err,
        smooth ==> outcome == OutcomeView::Err(
            FailureView { status: NOT_FOUND, message: "session not found"@ },
        ),
{
    let (r, w1) = lemma_step(
        config,
        PendingView::FinalizeResolve { extension },
        EffectView::Db(QueryView::SessionIdByToken { token }),
        w,
        smooth,
        outcome,
        end,
    );
}

} // verus!
