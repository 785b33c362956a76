//! What deleting a recording removes, and what it does not.
use vstd::prelude::*;

use crate::config::ConfigView;
use crate::delete::{
    delete, delete_token, lists_outputs, next_leftover, next_removal, noted, own_entries,
    removes_chunk_rows, removes_entry,
};
use crate::effect::{DirEntryView, DiskOpView, EffectView, QueryView, ReplyView};
use crate::flow::{LeftoversView, PendingView, RemovalView, StepView};
use crate::layout::{
    chunk_file, final_dir, inside, is_name, is_output_name, law_output_file_is_in_final_dir,
    law_output_file_is_in_no_session_dir, law_output_file_is_listed,
    law_output_file_is_no_chunk_file,
    law_output_files_are_distinct, law_output_names_tell_the_session,
    law_session_dir_holds_own_chunks, output_file, plain, session_dir,
};
use crate::messages::{FailureView, OutcomeView, ResponseView, NOT_FOUND};
use crate::path::join;
use crate::server::resumed;
use crate::world::{
    all_works, chunk_is_intact, chunk_is_placed, ends, ends_where, fairly, intact, is_behind,
    is_file_name_part, is_file_of_chunk, keeps_session, lemma_step, lemma_step_where, lists_files,
    no_file_inside,
    opens, opens_some, runs, server_failed, session_is_placed, sound, stored, Works, World,
};

verus! {

/// Whether `path` is that of a finalized file of the session, whichever the extension.
pub open spec fn is_output_of(config: ConfigView, id: Seq<char>, path: Seq<char>) -> bool {
    exists|extension: Seq<char>| path == #[trigger] output_file(config.data_dir, id, extension)
}

/// Whether `path` is that of a file of the session: inside its directory, or a finalized file.
pub open spec fn is_file_of(config: ConfigView, id: Seq<char>, path: Seq<char>) -> bool {
    inside(path, session_dir(config.data_dir, id)) || is_output_of(config, id, path)
}

/// Whether no file has been added or changed, and none has been removed that is not a file of the
/// session.
spec fn only_files_of_session_gone(
    config: ConfigView,
    w: World,
    id: Seq<char>,
    end: World,
) -> bool {
    &&& forall|p: Seq<char>| #[trigger]
        end.files.contains_key(p) ==> w.files.contains_key(p) && end.files[p] == w.files[p]
    &&& forall|p: Seq<char>| #[trigger]
        w.files.contains_key(p) && !is_file_of(config, id, p) ==> end.files.contains_key(p)
}

/// Whether no row of a chunk has been added or changed, and none has been removed that is not one
/// of the session.
spec fn only_chunks_of_session_gone(w: World, id: Seq<char>, end: World) -> bool {
    &&& forall|key: (Seq<char>, i64)|
        key.0 != id ==> (#[trigger] end.chunks.contains_key(key) <==> w.chunks.contains_key(key))
    &&& forall|key: (Seq<char>, i64)| #[trigger]
        end.chunks.contains_key(key) ==> w.chunks.contains_key(key) && end.chunks[key]
            == w.chunks[key]
}

/// Whether the session and its chunks, and nothing else, are gone from the database.
pub open spec fn is_gone(w: World, end: World, id: Seq<char>) -> bool {
    &&& end.sessions == w.sessions.remove(id)
    &&& forall|key: (Seq<char>, i64)| #[trigger]
        end.chunks.contains_key(key) <==> w.chunks.contains_key(key) && key.0 != id
    &&& forall|key: (Seq<char>, i64)| #[trigger]
        end.chunks.contains_key(key) ==> end.chunks[key] == w.chunks[key]
}

/// Whether the work is to remove a file inside the directory of the session.
pub open spec fn removes_chunk_file(config: ConfigView, id: Seq<char>, op: DiskOpView) -> bool {
    op matches DiskOpView::RemoveFile { path } && inside(path, session_dir(config.data_dir, id))
}

/// Whether the disk does its work, except that it may fail to remove single files inside the
/// directory of the session.
pub open spec fn only_chunk_files_resist(
    config: ConfigView,
    id: Seq<char>,
    works: Works,
) -> bool {
    &&& works.disk
    &&& forall|op: DiskOpView| #[trigger]
        works.spared.contains(op) ==> removes_chunk_file(config, id, op)
}

/// Whether the disk does its work, except that it may fail to remove the directory of the session
/// and single files inside.
pub open spec fn only_chunks_resist(config: ConfigView, id: Seq<char>, works: Works) -> bool {
    &&& works.disk
    &&& forall|op: DiskOpView| #[trigger]
        works.spared.contains(op) ==> removes_chunk_file(config, id, op) || op
            == (DiskOpView::RemoveDirAll { path: session_dir(config.data_dir, id) })
}

/// The ways in which a deletion of a session that is in the database ends.
spec fn delete_ends(
    config: ConfigView,
    w: World,
    id: Seq<char>,
    works: Works,
    outcome: OutcomeView,
    end: World,
) -> bool {
    &&& only_files_of_session_gone(config, w, id, end)
    &&& only_chunks_of_session_gone(w, id, end)
    &&& works.database && only_chunks_resist(config, id, works) ==> forall|p: Seq<char>| #[trigger]
        end.files.contains_key(p) ==> !is_output_of(config, id, p)
    &&& {
        // All is gone.
        ||| {
            &&& outcome == OutcomeView::Ok(ResponseView::Text("deleted"@))
            &&& is_gone(w, end, id)
            &&& forall|p: Seq<char>| #[trigger]
                end.files.contains_key(p) ==> !is_file_of(config, id, p)
        }
        // The server failed, and the session can still be deleted.
        ||| {
            &&& server_failed(outcome)
            &&& !(works.database && only_chunk_files_resist(config, id, works))
            &&& end.sessions == w.sessions
            &&& works.database ==> end.chunks == w.chunks
        }
    }
}

/// Goes through the chunk files that are left, up to the point where all have been dealt with; the
/// world at that point is given.
proof fn lemma_removing(
    config: ConfigView,
    removal: RemovalView,
    start: World,
    w: World,
    works: Works,
    outcome: OutcomeView,
    end: World,
) -> (w1: World)
    requires
        0 <= removal.next <= removal.files.len(),
        forall|i: int|
            0 <= i < removal.files.len() ==> inside(
                #[trigger] removal.files[i],
                session_dir(config.data_dir, removal.session_id),
            ),
        w.sessions == start.sessions,
        w.chunks == start.chunks,
        only_files_of_session_gone(config, start, removal.session_id, w),
        ends_where(config, next_removal(config, removal), w, works, outcome, end),
    ensures
        w1.sessions == start.sessions,
        w1.chunks == start.chunks,
        only_files_of_session_gone(config, start, removal.session_id, w1),
        ends_where(
            config,
            StepView::Run {
                pending: PendingView::DeleteDir {
                    session_id: removal.session_id,
                    output: removal.output,
                    fault: removal.fault,
                },
                effect: EffectView::Disk(
                    DiskOpView::RemoveDirAll {
                        path: session_dir(config.data_dir, removal.session_id),
                    },
                ),
            },
            w1,
            works,
            outcome,
            end,
        ),
    decreases removal.files.len() - removal.next,
{
    if removal.next < removal.files.len() {
        let taken = RemovalView { next: removal.next + 1, ..removal };
        let path = removal.files[removal.next];
        let (r1, w1) = lemma_step_where(
            config,
            PendingView::DeleteFile { removal: taken, path },
            EffectView::Disk(DiskOpView::RemoveFile { path }),
            w,
            works,
            outcome,
            end,
        );
        assert(is_file_of(config, removal.session_id, path));
        lemma_removing(config, taken, start, w1, works, outcome, end)
    } else {
        w
    }
}

/// An entry among the finalized files that is the session's leads to files of the session only,
/// and the work that removes it is none that concerns the session's chunks.
proof fn lemma_own_entry(config: ConfigView, id: Seq<char>, entry: DirEntryView, path: Seq<char>)
    requires
        is_name(id),
        is_name(entry.name),
        is_output_name(entry.name, id),
    ensures
        is_behind(path, final_dir(config.data_dir), entry) ==> is_file_of(config, id, path),
        !removes_chunk_file(config, id, removes_entry(config, entry)),
        removes_entry(config, entry) != (DiskOpView::RemoveDirAll {
            path: session_dir(config.data_dir, id),
        }),
{
    let own = join(final_dir(config.data_dir), entry.name);
    law_output_names_tell_the_session(config.data_dir, id, entry.name, own);
    let extension = choose|extension: Seq<char>|
        own == #[trigger] output_file(config.data_dir, id, extension);
    law_output_file_is_in_no_session_dir(config.data_dir, id, extension, id);
    if is_behind(path, final_dir(config.data_dir), entry) {
        law_output_names_tell_the_session(config.data_dir, id, entry.name, path);
    }
}

/// Goes through the session's entries that are left among the finalized files, and then through
/// the rows.
proof fn lemma_leftovers(
    config: ConfigView,
    leftovers: LeftoversView,
    start: World,
    w: World,
    works: Works,
    outcome: OutcomeView,
    end: World,
)
    requires
        is_name(leftovers.session_id),
        0 <= leftovers.next <= leftovers.entries.len(),
        forall|i: int|
            0 <= i < leftovers.entries.len() ==> is_name((#[trigger] leftovers.entries[i]).name)
                && is_output_name(leftovers.entries[i].name, leftovers.session_id),
        w.sessions == start.sessions,
        w.chunks == start.chunks,
        only_files_of_session_gone(config, start, leftovers.session_id, w),
        leftovers.fault is Some ==> !only_chunk_files_resist(
            config,
            leftovers.session_id,
            works,
        ),
        leftovers.fault is None ==> no_file_inside(
            w.files,
            session_dir(config.data_dir, leftovers.session_id),
        ),
        leftovers.fault is None || only_chunks_resist(config, leftovers.session_id, works)
            ==> forall|p: Seq<char>| #[trigger]
            w.files.contains_key(p) && is_output_of(config, leftovers.session_id, p)
                ==> exists|k: int|
                leftovers.next <= k < leftovers.entries.len() && is_behind(
                    p,
                    final_dir(config.data_dir),
                    #[trigger] leftovers.entries[k],
                ),
        ends_where(config, next_leftover(config, leftovers), w, works, outcome, end),
    ensures
        delete_ends(config, start, leftovers.session_id, works, outcome, end),
    decreases leftovers.entries.len() - leftovers.next,
{
    let id = leftovers.session_id;
    if leftovers.next < leftovers.entries.len() {
        let entry = leftovers.entries[leftovers.next];
        let counted = LeftoversView { next: leftovers.next + 1, ..leftovers };
        let (r1, w1) = lemma_step_where(
            config,
            PendingView::DeleteLeftover { leftovers: counted },
            EffectView::Disk(removes_entry(config, entry)),
            w,
            works,
            outcome,
            end,
        );
        let taken = LeftoversView { fault: noted(leftovers.fault, r1), ..counted };
        lemma_own_entry(config, id, entry, seq![]);
        assert forall|p: Seq<char>| #[trigger]
            start.files.contains_key(p) && !is_file_of(config, id, p) implies
            w1.files.contains_key(p) by {
            assert(w.files.contains_key(p));
            lemma_own_entry(config, id, entry, p);
        }
        assert forall|p: Seq<char>| #[trigger] w1.files.contains_key(p) implies
            start.files.contains_key(p) && w1.files[p] == start.files[p] by {
            assert(w.files.contains_key(p));
        }
        assert(only_files_of_session_gone(config, start, id, w1));
        assert(r1 is Failed ==> !only_chunks_resist(config, id, works));
        assert forall|p: Seq<char>|
            taken.fault is None && #[trigger] w1.files.contains_key(p) implies !inside(
            p,
            session_dir(config.data_dir, id),
        ) by {
            assert(w.files.contains_key(p));
        }
        if taken.fault is None || only_chunks_resist(config, id, works) {
            assert forall|p: Seq<char>| #[trigger]
                w1.files.contains_key(p) && is_output_of(config, id, p) implies exists|k: int|
                taken.next <= k < taken.entries.len() && is_behind(
                    p,
                    final_dir(config.data_dir),
                    #[trigger] taken.entries[k],
                ) by {
                assert(w.files.contains_key(p));
                assert(!is_behind(p, final_dir(config.data_dir), entry));
            }
        }
        lemma_leftovers(config, taken, start, w1, works, outcome, end);
    } else {
        lemma_delete_rows(config, start, w, id, leftovers.fault, works, outcome, end);
    }
}

proof fn lemma_delete_rows(
    config: ConfigView,
    w: World,
    start: World,
    id: Seq<char>,
    fault: Option<Seq<char>>,
    works: Works,
    outcome: OutcomeView,
    end: World,
)
    requires
        start.sessions == w.sessions,
        start.chunks == w.chunks,
        only_files_of_session_gone(config, w, id, start),
        fault is Some ==> !only_chunk_files_resist(config, id, works),
        fault is None ==> no_file_inside(start.files, session_dir(config.data_dir, id)),
        fault is None || only_chunks_resist(config, id, works) ==> forall|p: Seq<char>| #[trigger]
            start.files.contains_key(p) ==> !is_output_of(config, id, p),
        ends_where(config, removes_chunk_rows(id, fault), start, works, outcome, end),
    ensures
        delete_ends(config, w, id, works, outcome, end),
{
    if fault is None {
        let (r1, w1) = lemma_step_where(
            config,
            PendingView::DeleteChunkRows { session_id: id },
            EffectView::Db(QueryView::DeleteChunks { session_id: id }),
            start,
            works,
            outcome,
            end,
        );
        if r1 is Done {
            let (r2, w2) = lemma_step_where(
                config,
                PendingView::DeleteSessionRow,
                EffectView::Db(QueryView::DeleteSession { id }),
                w1,
                works,
                outcome,
                end,
            );
        }
    }
}

/// Lists the finalized files, and goes on with those of the session.
proof fn lemma_delete_outputs(
    config: ConfigView,
    w: World,
    start: World,
    id: Seq<char>,
    fault: Option<Seq<char>>,
    works: Works,
    outcome: OutcomeView,
    end: World,
)
    requires
        is_name(id),
        start.sessions == w.sessions,
        start.chunks == w.chunks,
        only_files_of_session_gone(config, w, id, start),
        fault is Some ==> !only_chunk_files_resist(config, id, works),
        fault is None ==> no_file_inside(start.files, session_dir(config.data_dir, id)),
        ends_where(config, lists_outputs(config, id, fault), start, works, outcome, end),
    ensures
        delete_ends(config, w, id, works, outcome, end),
{
    let dir = final_dir(config.data_dir);
    let op = DiskOpView::ListDir { path: dir };
    let (r1, w1) = lemma_step_where(
        config,
        PendingView::DeleteOutputList { session_id: id, fault },
        EffectView::Disk(op),
        start,
        works,
        outcome,
        end,
    );
    assert(!removes_chunk_file(config, id, op));
    assert forall|p: Seq<char>| #[trigger]
        start.files.contains_key(p) && is_output_of(config, id, p) implies inside(p, dir) by {
        let extension = choose|extension: Seq<char>|
            p == #[trigger] output_file(config.data_dir, id, extension);
        law_output_file_is_in_final_dir(config.data_dir, id, extension);
    }
    match r1 {
        ReplyView::Entries(all) => {
            let pred = |entry: DirEntryView| is_output_name(entry.name, id);
            let entries = own_entries(all, id);
            assert(entries == all.filter(pred));
            assert forall|i: int| 0 <= i < entries.len() implies is_name(
                (#[trigger] entries[i]).name,
            ) && is_output_name(entries[i].name, id) by {
                all.lemma_filter_pred(pred, i);
                assert(entries.contains(entries[i]));
                all.lemma_filter_contains_rev(pred, entries[i]);
                let k = choose|k: int| 0 <= k < all.len() && all[k] == entries[i];
                assert(is_name(all[k].name));
            }
            assert forall|p: Seq<char>| #[trigger]
                w1.files.contains_key(p) && is_output_of(config, id, p) implies exists|k: int|
                0 <= k < entries.len() && is_behind(p, dir, #[trigger] entries[k]) by {
                let i = choose|i: int|
                    0 <= i < all.len() && is_behind(p, dir, #[trigger] all[i]);
                law_output_names_tell_the_session(config.data_dir, id, all[i].name, p);
                all.lemma_filter_contains(pred, i);
                let k = choose|k: int| 0 <= k < entries.len() && entries[k] == all[i];
                assert(is_behind(p, dir, entries[k]));
            }
            let leftovers = LeftoversView { session_id: id, entries, next: 0, fault };
            lemma_leftovers(config, leftovers, w, w1, works, outcome, end);
        },
        _ => {
            lemma_delete_rows(config, w, w1, id, noted(fault, r1), works, outcome, end);
        },
    }
}

/// Removes the session's directory and the file that its row names, and goes on.
proof fn lemma_delete_dir(
    config: ConfigView,
    w: World,
    start: World,
    id: Seq<char>,
    works: Works,
    outcome: OutcomeView,
    end: World,
)
    requires
        sound(config, w),
        w.sessions.contains_key(id),
        start.sessions == w.sessions,
        start.chunks == w.chunks,
        only_files_of_session_gone(config, w, id, start),
        ends_where(
            config,
            StepView::Run {
                pending: PendingView::DeleteDir {
                    session_id: id,
                    output: w.sessions[id].output_path,
                    fault: None,
                },
                effect: EffectView::Disk(
                    DiskOpView::RemoveDirAll { path: session_dir(config.data_dir, id) },
                ),
            },
            start,
            works,
            outcome,
            end,
        ),
    ensures
        delete_ends(config, w, id, works, outcome, end),
{
    let output = w.sessions[id].output_path;
    let dir = session_dir(config.data_dir, id);
    let op = DiskOpView::RemoveDirAll { path: dir };
    assert(session_is_placed(config, w, id));
    assert(!removes_chunk_file(config, id, op));
    let (r1, w1) = lemma_step_where(
        config,
        PendingView::DeleteDir { session_id: id, output, fault: None },
        EffectView::Disk(op),
        start,
        works,
        outcome,
        end,
    );
    let fault = noted(None, r1);
    assert forall|p: Seq<char>| #[trigger]
        w.files.contains_key(p) && !is_file_of(config, id, p) implies w1.files.contains_key(p) by {
        assert(start.files.contains_key(p));
    }
    assert(fault is None ==> no_file_inside(w1.files, dir));
    if let Some(path) = output {
        let extension = choose|extension: Seq<char>|
            is_file_name_part(extension) && path == #[trigger] output_file(
                config.data_dir,
                id,
                extension,
            );
        law_output_file_is_listed(config.data_dir, id, extension);
        let (r2, w2) = lemma_step_where(
            config,
            PendingView::DeleteOutput { session_id: id, path, fault },
            EffectView::Disk(DiskOpView::RemoveFile { path }),
            w1,
            works,
            outcome,
            end,
        );
        assert(is_output_of(config, id, path));
        lemma_delete_outputs(config, w, w2, id, fault, works, outcome, end);
    } else {
        lemma_delete_outputs(config, w, w1, id, fault, works, outcome, end);
    }
}

proof fn lemma_delete(
    config: ConfigView,
    w: World,
    id: Seq<char>,
    works: Works,
    outcome: OutcomeView,
    end: World,
)
    requires
        sound(config, w),
        w.sessions.contains_key(id),
        ends_where(config, delete(id), w, works, outcome, end),
    ensures
        delete_ends(config, w, id, works, outcome, end),
{
    let output = w.sessions[id].output_path;
    assert(session_is_placed(config, w, id));
    let (r1, w1) = lemma_step_where(
        config,
        PendingView::DeleteLookup { session_id: id },
        EffectView::Db(QueryView::OutputPathById { id }),
        w,
        works,
        outcome,
        end,
    );
    if !(r1 is Failed) {
        let (r2, w2) = lemma_step_where(
            config,
            PendingView::DeleteList { session_id: id, output },
            EffectView::Db(QueryView::ChunkFiles { session_id: id }),
            w1,
            works,
            outcome,
            end,
        );
        if let ReplyView::Paths(files) = r2 {
            assert(lists_files(w, id, files));
            assert forall|i: int| 0 <= i < files.len() implies inside(
                #[trigger] files[i],
                session_dir(config.data_dir, id),
            ) by {
                assert(is_file_of_chunk(w, id, files[i]));
                let idx = choose|idx: i64| #[trigger]
                    w.chunks.contains_key((id, idx)) && w.chunks[(id, idx)].file_path == files[i];
                assert(chunk_is_placed(config, w, (id, idx)));
                law_session_dir_holds_own_chunks(config.data_dir, id, idx as u32, id);
            }
            let removal = RemovalView { session_id: id, output, files, next: 0, fault: None };
            let w3 = lemma_removing(config, removal, w, w2, works, outcome, end);
            lemma_delete_dir(config, w, w3, id, works, outcome, end);
        }
    }
}

/// No file of another session is a file of this one.
proof fn lemma_files_of_others(
    config: ConfigView,
    id: Seq<char>,
    other_id: Seq<char>,
    idx: u32,
    extension: Seq<char>,
)
    requires
        plain(id),
        is_name(other_id),
        other_id != id,
    ensures
        !is_file_of(config, id, chunk_file(config.data_dir, other_id, idx)),
        plain(other_id) ==> !is_file_of(
            config,
            id,
            output_file(config.data_dir, other_id, extension),
        ),
{
    let data_dir = config.data_dir;
    law_session_dir_holds_own_chunks(data_dir, other_id, idx, id);
    law_output_file_is_in_no_session_dir(data_dir, other_id, extension, id);
    let chunk = chunk_file(data_dir, other_id, idx);
    if is_output_of(config, id, chunk) {
        let own = choose|own: Seq<char>| chunk == #[trigger] output_file(data_dir, id, own);
        law_output_file_is_no_chunk_file(data_dir, id, own, other_id, idx);
    }
    let output = output_file(data_dir, other_id, extension);
    if plain(other_id) && is_output_of(config, id, output) {
        let own = choose|own: Seq<char>| output == #[trigger] output_file(data_dir, id, own);
        law_output_files_are_distinct(data_dir, id, own, other_id, extension);
    }
}

/// Deleting a session keeps the server's state sound and leaves every other session alone: its
/// row, its chunks and its finalized file; whatever fails on its way.
pub proof fn law_delete_keeps_other_sessions(
    config: ConfigView,
    w: World,
    id: Seq<char>,
    other_id: Seq<char>,
    smooth: bool,
    outcome: OutcomeView,
    end: World,
)
    requires
        sound(config, w),
        other_id != id,
        ends(config, delete(id), w, smooth, outcome, end),
    ensures
        sound(config, end),
        keeps_session(w, end, other_id),
        forall|idx: u32| #[trigger] stored(end, other_id, idx) == stored(w, other_id, idx),
        end.sessions.contains_key(other_id) == w.sessions.contains_key(other_id),
        w.sessions.contains_key(other_id) ==> end.sessions[other_id] == w.sessions[other_id],
        w.sessions.contains_key(other_id) && w.sessions[other_id].output_path is Some ==> {
            let path = w.sessions[other_id].output_path->0;
            &&& end.files.contains_key(path) == w.files.contains_key(path)
            &&& w.files.contains_key(path) ==> end.files[path] == w.files[path]
        },
{
    if !w.sessions.contains_key(id) {
        law_delete_of_unknown_session_is_refused(config, w, id, smooth, outcome, end);
    } else {
        lemma_delete(config, w, id, all_works(smooth), outcome, end);
        assert(session_is_placed(config, w, id));
        assert forall|i: Seq<char>| #[trigger] end.sessions.contains_key(i) implies
            session_is_placed(config, end, i) by {
            assert(w.sessions.contains_key(i));
            assert(session_is_placed(config, w, i));
        }
        assert forall|token: Seq<char>, i: Seq<char>, j: Seq<char>| #[trigger]
            opens(end, token, i) && #[trigger] opens(end, token, j) implies i == j by {
            assert(opens(w, token, i) && opens(w, token, j));
        }
        assert forall|key: (Seq<char>, i64)| #[trigger] end.chunks.contains_key(key) implies
            chunk_is_placed(config, end, key) by {
            assert(w.chunks.contains_key(key));
            assert(chunk_is_placed(config, w, key));
        }
        assert forall|idx: i64| #[trigger] w.chunks.contains_key((other_id, idx)) implies {
            let path = w.chunks[(other_id, idx)].file_path;
            &&& end.chunks.contains_key((other_id, idx))
            &&& end.files.contains_key(path) == w.files.contains_key(path)
            &&& w.files.contains_key(path) ==> end.files[path] == w.files[path]
        } by {
            assert(chunk_is_placed(config, w, (other_id, idx)));
            lemma_files_of_others(config, id, other_id, idx as u32, seq![]);
            assert(end.chunks.contains_key((other_id, idx)));
        }
        assert(keeps_session(w, end, other_id)) by {
            assert forall|idx: i64|
                intact(w, other_id) && #[trigger] end.chunks.contains_key((other_id, idx)) implies
                chunk_is_intact(end, (other_id, idx)) by {
                assert(w.chunks.contains_key((other_id, idx)));
                assert(chunk_is_intact(w, (other_id, idx)));
            }
        }
        assert forall|idx: u32| #[trigger] stored(end, other_id, idx) == stored(
            w,
            other_id,
            idx,
        ) by {
            assert(end.chunks.contains_key((other_id, idx as i64)) == w.chunks.contains_key(
                (other_id, idx as i64),
            ));
        }
        if w.sessions.contains_key(other_id) {
            assert(session_is_placed(config, w, other_id));
            if let Some(path) = w.sessions[other_id].output_path {
                let own = choose|own: Seq<char>|
                    is_file_name_part(own) && path == #[trigger] output_file(
                        config.data_dir,
                        other_id,
                        own,
                    );
                lemma_files_of_others(config, id, other_id, 0, own);
            }
        }
    }
}

/// A session whose deletion was answered is gone: its row, the rows of its chunks, its chunk files
/// and all its finalized files, whatever extensions they have; and its token opens nothing any
/// more.
pub proof fn law_deleted_session_is_gone(
    config: ConfigView,
    w: World,
    id: Seq<char>,
    smooth: bool,
    outcome: OutcomeView,
    end: World,
)
    requires
        sound(config, w),
        outcome is Ok,
        ends(config, delete(id), w, smooth, outcome, end),
    ensures
        w.sessions.contains_key(id),
        outcome == OutcomeView::Ok(ResponseView::Text("deleted"@)),
        is_gone(w, end, id),
        intact(end, id),
        forall|token: Seq<char>| #[trigger] opens(w, token, id) ==> !opens_some(end, token),
        forall|extension: Seq<char>|
            !end.files.contains_key(#[trigger] output_file(config.data_dir, id, extension)),
        forall|p: Seq<char>| #[trigger] end.files.contains_key(p) ==> !is_file_of(config, id, p),
{
    if !w.sessions.contains_key(id) {
        law_delete_of_unknown_session_is_refused(config, w, id, smooth, outcome, end);
    } else {
        lemma_delete(config, w, id, all_works(smooth), outcome, end);
        assert forall|token: Seq<char>| #[trigger] opens(w, token, id) implies !opens_some(
            end,
            token,
        ) by {
            assert forall|other: Seq<char>| !opens(end, token, other) by {
                if opens(end, token, other) {
                    assert(opens(w, token, other));
                }
            }
        }
        assert forall|extension: Seq<char>|
            !end.files.contains_key(#[trigger] output_file(config.data_dir, id, extension)) by {
            assert(is_output_of(
                config,
                id,
                output_file(config.data_dir, id, extension),
            ));
        }
    }
}

/// A session that is in the database is deleted if database and disk do their work, and files
/// that are missing already do not keep it from being answered. Only the server's failure does,
/// and then its row still stands; if it was the disk that failed, so do the rows of its chunks.
pub proof fn law_known_session_is_deleted(
    config: ConfigView,
    w: World,
    id: Seq<char>,
    works: Works,
    outcome: OutcomeView,
    end: World,
)
    requires
        sound(config, w),
        w.sessions.contains_key(id),
        ends_where(config, delete(id), w, works, outcome, end),
    ensures
        works == all_works(true) ==> outcome is Ok,
        outcome is Err ==> server_failed(outcome) && end.sessions == w.sessions,
        outcome is Err && works.database ==> end.chunks == w.chunks,
{
    lemma_delete(config, w, id, works, outcome, end);
}

/// Whether a request is on its way to delete a session, with an effect that never has to fail.
spec fn is_deleting(step: StepView) -> bool {
    match step {
        StepView::Finish { .. } => true,
        StepView::Run { pending, effect } => {
            &&& match pending {
                PendingView::DeleteLookup { .. } => true,
                PendingView::DeleteList { .. } => true,
                PendingView::DeleteFile { .. } => true,
                PendingView::DeleteDir { .. } => true,
                PendingView::DeleteOutput { .. } => true,
                PendingView::DeleteOutputList { .. } => true,
                PendingView::DeleteLeftover { .. } => true,
                PendingView::DeleteChunkRows { .. } => true,
                PendingView::DeleteSessionRow => true,
                _ => false,
            }
            &&& match effect {
                EffectView::Db(query) => !(query is InsertSession) && !(query is InsertChunk),
                EffectView::Disk(op) => op is ListDir || op is RemoveFile || op is RemoveDirAll,
            }
        },
    }
}

/// A deletion in which nothing fails but what has to is one in which nothing fails.
proof fn lemma_deletion_is_smooth(
    config: ConfigView,
    step: StepView,
    w: World,
    trace: Seq<(ReplyView, World)>,
    outcome: OutcomeView,
    end: World,
)
    requires
        is_deleting(step),
        runs(config, step, w, fairly(), trace, outcome, end),
    ensures
        runs(config, step, w, all_works(true), trace, outcome, end),
    decreases trace.len(),
{
    if let StepView::Run { pending, effect } = step {
        let next = resumed(config, pending, trace[0].0);
        assert(is_deleting(next));
        lemma_deletion_is_smooth(config, next, trace[0].1, trace.drop_first(), outcome, end);
    }
}

/// A session that is in the database is deleted wherever nothing fails but what has to, whatever of
/// its files and directories is there.
pub proof fn law_delete_succeeds(
    config: ConfigView,
    w: World,
    id: Seq<char>,
    outcome: OutcomeView,
    end: World,
)
    requires
        sound(config, w),
        w.sessions.contains_key(id),
        ends_where(config, delete(id), w, fairly(), outcome, end),
    ensures
        outcome == OutcomeView::Ok(ResponseView::Text("deleted"@)),
        is_gone(w, end, id),
        forall|p: Seq<char>| #[trigger] end.files.contains_key(p) ==> !is_file_of(config, id, p),
{
    let trace = choose|trace: Seq<(ReplyView, World)>| #[trigger]
        runs(config, delete(id), w, fairly(), trace, outcome, end);
    lemma_deletion_is_smooth(config, delete(id), w, trace, outcome, end);
    lemma_delete(config, w, id, all_works(true), outcome, end);
}

/// With the database working, a deletion is not answered only if removing the directory, removing
/// a finalized file or listing them failed: chunk files that cannot be removed by themselves go
/// with the directory, and all is gone.
pub proof fn law_resisting_chunk_files_do_not_matter(
    config: ConfigView,
    w: World,
    id: Seq<char>,
    works: Works,
    outcome: OutcomeView,
    end: World,
)
    requires
        sound(config, w),
        w.sessions.contains_key(id),
        works.database,
        only_chunk_files_resist(config, id, works),
        ends_where(config, delete(id), w, works, outcome, end),
    ensures
        outcome == OutcomeView::Ok(ResponseView::Text("deleted"@)),
        is_gone(w, end, id),
        forall|p: Seq<char>| #[trigger] end.files.contains_key(p) ==> !is_file_of(config, id, p),
{
    lemma_delete(config, w, id, works, outcome, end);
}

/// With the database working, the finalized files go even if the chunks stay: nothing that fails
/// in the directory of the session keeps them.
pub proof fn law_finalized_files_go_though_chunks_stay(
    config: ConfigView,
    w: World,
    id: Seq<char>,
    works: Works,
    outcome: OutcomeView,
    end: World,
)
    requires
        sound(config, w),
        w.sessions.contains_key(id),
        works.database,
        only_chunks_resist(config, id, works),
        ends_where(config, delete(id), w, works, outcome, end),
    ensures
        forall|extension: Seq<char>|
            !end.files.contains_key(#[trigger] output_file(config.data_dir, id, extension)),
{
    lemma_delete(config, w, id, works, outcome, end);
    assert forall|extension: Seq<char>|
        !end.files.contains_key(#[trigger] output_file(config.data_dir, id, extension)) by {
        assert(is_output_of(config, id, output_file(config.data_dir, id, extension)));
    }
}

/// A deletion that was not answered can be repeated: one that nothing disturbs is then answered,
/// and the session is gone.
pub proof fn law_failed_deletion_can_be_repeated(
    config: ConfigView,
    w: World,
    id: Seq<char>,
    works: Works,
    outcome: OutcomeView,
    between: World,
    again: OutcomeView,
    end: World,
)
    requires
        sound(config, w),
        w.sessions.contains_key(id),
        outcome is Err,
        ends_where(config, delete(id), w, works, outcome, between),
        ends(config, delete(id), between, true, again, end),
    ensures
        again == OutcomeView::Ok(ResponseView::Text("deleted"@)),
        end.sessions == w.sessions.remove(id),
        forall|idx: i64| !#[trigger] end.chunks.contains_key((id, idx)),
        forall|p: Seq<char>| #[trigger] end.files.contains_key(p) ==> !is_file_of(config, id, p),
{
    lemma_delete(config, w, id, works, outcome, between);
    assert forall|i: Seq<char>| #[trigger] between.sessions.contains_key(i) implies
        session_is_placed(config, between, i) by {
        assert(session_is_placed(config, w, i));
    }
    assert forall|token: Seq<char>, i: Seq<char>, j: Seq<char>| #[trigger]
        opens(between, token, i) && #[trigger] opens(between, token, j) implies i == j by {
        assert(opens(w, token, i) && opens(w, token, j));
    }
    assert forall|key: (Seq<char>, i64)| #[trigger] between.chunks.contains_key(key) implies
        chunk_is_placed(config, between, key) by {
        assert(w.chunks.contains_key(key));
        assert(chunk_is_placed(config, w, key));
    }
    lemma_delete(config, between, id, all_works(true), again, end);
}

/// Deleting a session that is not in the database is answered as not found, and nothing changes.
pub proof fn law_delete_of_unknown_session_is_refused(
    config: ConfigView,
    w: World,
    id: Seq<char>,
    smooth: bool,
    outcome: OutcomeView,
    end: World,
)
    requires
        !w.sessions.contains_key(id),
        ends(config, delete(id), w, smooth, outcome, end),
    ensures
        end == w,
        outcome is Err,
        smooth ==> outcome == OutcomeView::Err(
            FailureView { status: NOT_FOUND, message: "session not found"@ },
        ),
{
    let (r1, w1) = lemma_step(
        config,
        PendingView::DeleteLookup { session_id: id },
        EffectView::Db(QueryView::OutputPathById { id }),
        w,
        smooth,
        outcome,
        end,
    );
}

/// Deleting by token is deleting the session that the token opens, unless the session cannot be
/// looked up.
pub proof fn law_delete_by_token_reaches_its_session(
    config: ConfigView,
    w: World,
    token: Seq<char>,
    id: Seq<char>,
    smooth: bool,
    outcome: OutcomeView,
    end: World,
)
    requires
        sound(config, w),
        opens(w, token, id),
        ends(config, delete_token(token), w, smooth, outcome, end),
    ensures
        ends(config, delete(id), w, smooth, outcome, end) || (!smooth && end == w
            && server_failed(outcome)),
{
    let (r, w1) = lemma_step(
        config,
        PendingView::DeleteResolve,
        EffectView::Db(QueryView::SessionIdByToken { token }),
        w,
        smooth,
        outcome,
        end,
    );
}

/// Deleting with a token that opens nothing is answered as not found, and nothing changes.
pub proof fn law_delete_by_unknown_token_is_refused(
    config: ConfigView,
    w: World,
    token: Seq<char>,
    smooth: bool,
    outcome: OutcomeView,
    end: World,
)
    requires
        !opens_some(w, token),
        ends(config, delete_token(token), w, smooth, outcome, end),
    ensures
        end == w,
        outcome is Err,
        smooth ==> outcome == OutcomeView::Err(
            FailureView { status: NOT_FOUND, message: "session not found"@ },
        ),
{
    let (r, w1) = lemma_step(
        config,
        PendingView::DeleteResolve,
        EffectView::Db(QueryView::SessionIdByToken { token }),
        w,
        smooth,
        outcome,
        end,
    );
}

} // verus!
