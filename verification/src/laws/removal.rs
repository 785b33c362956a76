//! What a deletion that was answered has removed, whatever the rows of the session name: older ones
//! may name files outside the directories that are used now.
use vstd::prelude::*;

use crate::config::ConfigView;
use crate::delete::delete;
use crate::effect::{DiskOpView, EffectView, QueryView, ReplyView};
use crate::flow::{PendingView, StepView};
use crate::layout::{
    final_dir, inside, is_name, is_output_path, lemma_below_final_dir, output_file, session_dir,
};
use crate::messages::OutcomeView;
use crate::server::resumed;
use crate::world::{
    ends_where, is_file_of_chunk, lists_files, performs, runs, Works, World,
};

verus! {

/// Whether the file at `path` is still to be removed: it is among the files of the list from
/// `next` on.
spec fn is_ahead(files: Seq<Seq<char>>, next: int, path: Seq<char>) -> bool {
    exists|i: int| next <= i < files.len() && 0 <= i && #[trigger] files[i] == path
}

/// What holds at every step of a deletion that will not be answered while the file at `path` is
/// there.
spec fn is_doomed(
    config: ConfigView,
    id: Seq<char>,
    step: StepView,
    w: World,
    path: Seq<char>,
) -> bool {
    let gone = !w.files.contains_key(path);
    let dir = session_dir(config.data_dir, id);
    match step {
        StepView::Finish { outcome } => outcome is Ok ==> gone,
        StepView::Run { pending, effect } => match pending {
            PendingView::DeleteFile { removal, path: current } => {
                &&& removal.session_id == id
                &&& 0 <= removal.next
                &&& effect == EffectView::Disk(DiskOpView::RemoveFile { path: current })
                &&& {
                    ||| removal.fault is Some
                    ||| gone
                    ||| current == path
                    ||| is_ahead(removal.files, removal.next, path)
                    ||| inside(path, dir)
                    ||| removal.output == Some(path) && !is_output_path(config.data_dir, id, path)
                }
            },
            PendingView::DeleteDir { session_id, output, fault } => {
                &&& session_id == id
                &&& effect == EffectView::Disk(DiskOpView::RemoveDirAll { path: dir })
                &&& {
                    ||| fault is Some
                    ||| gone
                    ||| inside(path, dir)
                    ||| output == Some(path) && !is_output_path(config.data_dir, id, path)
                }
            },
            PendingView::DeleteOutput { session_id, path: current, fault } => {
                &&& session_id == id
                &&& effect == EffectView::Disk(DiskOpView::RemoveFile { path: current })
                &&& {
                    ||| fault is Some
                    ||| gone
                    ||| current == path && !is_output_path(config.data_dir, id, path)
                }
            },
            PendingView::DeleteOutputList { session_id, fault } => {
                &&& session_id == id
                &&& effect matches EffectView::Disk(DiskOpView::ListDir { .. })
                &&& fault is Some || gone
            },
            PendingView::DeleteLeftover { leftovers } => {
                &&& leftovers.session_id == id
                &&& effect is Disk && (effect->Disk_0 is RemoveFile || effect->Disk_0 is
                    RemoveDirAll)
                &&& leftovers.fault is Some || gone
            },
            PendingView::DeleteChunkRows { .. } => effect is Db && gone,
            PendingView::DeleteSessionRow => effect is Db && gone,
            _ => false,
        },
    }
}

proof fn lemma_stays_doomed(
    config: ConfigView,
    id: Seq<char>,
    pending: PendingView,
    effect: EffectView,
    w: World,
    path: Seq<char>,
    reply: ReplyView,
    after: World,
)
    requires
        is_doomed(config, id, StepView::Run { pending, effect }, w, path),
        performs(w, effect, reply, after),
    ensures
        is_doomed(config, id, resumed(config, pending, reply), after, path),
{
    if let PendingView::DeleteFile { removal, path: current } = pending {
        if removal.next < removal.files.len() && is_ahead(removal.files, removal.next, path) {
            let i = choose|i: int|
                removal.next <= i < removal.files.len() && 0 <= i && #[trigger] removal.files[i]
                    == path;
            if i > removal.next {
                assert(is_ahead(removal.files, removal.next + 1, path));
            }
        }
    }
}

proof fn lemma_doomed_to_the_end(
    config: ConfigView,
    id: Seq<char>,
    step: StepView,
    w: World,
    path: Seq<char>,
    works: Works,
    trace: Seq<(ReplyView, World)>,
    outcome: OutcomeView,
    end: World,
)
    requires
        is_doomed(config, id, step, w, path),
        runs(config, step, w, works, trace, outcome, end),
    ensures
        outcome is Ok ==> !end.files.contains_key(path),
    decreases trace.len(),
{
    if let StepView::Run { pending, effect } = step {
        let (reply, after) = trace[0];
        lemma_stays_doomed(config, id, pending, effect, w, path, reply, after);
        lemma_doomed_to_the_end(
            config,
            id,
            resumed(config, pending, reply),
            after,
            path,
            works,
            trace.drop_first(),
            outcome,
            end,
        );
    }
}

/// A deletion that was answered has removed every file that the rows of the session's chunks name,
/// and the file that the session's row names, also where they are outside the directories of the
/// session and of the finalized files.
pub proof fn law_deletion_removes_what_the_rows_name(
    config: ConfigView,
    w: World,
    id: Seq<char>,
    path: Seq<char>,
    works: Works,
    outcome: OutcomeView,
    end: World,
)
    requires
        is_name(id),
        is_file_of_chunk(w, id, path) || (w.sessions.contains_key(id) && w.sessions[id].output_path
            == Some(path) && !inside(path, final_dir(config.data_dir))),
        outcome is Ok,
        ends_where(config, delete(id), w, works, outcome, end),
    ensures
        !end.files.contains_key(path),
{
    let first = StepView::Run {
        pending: PendingView::DeleteLookup { session_id: id },
        effect: EffectView::Db(QueryView::OutputPathById { id }),
    };
    let trace = choose|trace: Seq<(ReplyView, World)>| #[trigger]
        runs(config, delete(id), w, works, trace, outcome, end);
    assert(runs(config, first, w, works, trace, outcome, end));
    let (r1, w1) = trace[0];
    let rest = trace.drop_first();
    let second = resumed(config, PendingView::DeleteLookup { session_id: id }, r1);
    assert(runs(config, second, w1, works, rest, outcome, end));
    lemma_output_path_is_inside(config, id, path);
    if let ReplyView::Column(Some(output)) = r1 {
        let (r2, w2) = rest[0];
        let third = resumed(config, PendingView::DeleteList { session_id: id, output }, r2);
        assert(runs(config, third, w2, works, rest.drop_first(), outcome, end));
        if let ReplyView::Paths(files) = r2 {
            assert(lists_files(w, id, files));
            if is_file_of_chunk(w, id, path) {
                let idx = choose|idx: i64| #[trigger]
                    w.chunks.contains_key((id, idx)) && w.chunks[(id, idx)].file_path == path;
                assert(files.contains(path));
                let i = choose|i: int| 0 <= i < files.len() && files[i] == path;
                if i > 0 {
                    assert(is_ahead(files, 1, path));
                }
            }
            assert(is_doomed(config, id, third, w2, path));
            lemma_doomed_to_the_end(
                config,
                id,
                third,
                w2,
                path,
                works,
                rest.drop_first(),
                outcome,
                end,
            );
        }
    }
}

/// What leads to where the finalized files of a session are listed is inside their directory.
pub proof fn lemma_output_path_is_inside(config: ConfigView, id: Seq<char>, path: Seq<char>)
    requires
        is_name(id),
    ensures
        is_output_path(config.data_dir, id, path) ==> inside(path, final_dir(config.data_dir)),
{
    reveal_strlit("");
    reveal_strlit(".");
    assert(id.contains(id[0]));
    let name = id + "."@ + ""@;
    assert(name[0] == id[0]);
    lemma_below_final_dir(config.data_dir, name);
    let head = output_file(config.data_dir, id, ""@);
    let top = final_dir(config.data_dir).push('/');
    assert(head == top + name);
    if is_output_path(config.data_dir, id, path) {
        assert(top =~= head.take(top.len() as int));
        assert forall|i: int| 0 <= i < top.len() implies top[i] == path[i] by {
            assert(top[i] == head[i]);
        }
        assert(top =~= path.take(top.len() as int));
    }
}

/// What holds at every step of a deletion that will not be answered while the directory of the
/// session is there.
spec fn is_dir_doomed(config: ConfigView, id: Seq<char>, step: StepView, w: World) -> bool {
    let dir = session_dir(config.data_dir, id);
    let gone = !w.dirs.contains(dir);
    match step {
        StepView::Finish { outcome } => outcome is Ok ==> gone,
        StepView::Run { pending, effect } => match pending {
            PendingView::DeleteLookup { session_id } => session_id == id && effect is Db,
            PendingView::DeleteList { session_id, .. } => session_id == id && effect is Db,
            PendingView::DeleteFile { removal, .. } => removal.session_id == id && effect is Disk
                && effect->Disk_0 is RemoveFile,
            PendingView::DeleteDir { .. } => effect == EffectView::Disk(
                DiskOpView::RemoveDirAll { path: dir },
            ),
            PendingView::DeleteOutput { fault, .. } => {
                &&& effect is Disk && effect->Disk_0 is RemoveFile
                &&& fault is Some || gone
            },
            PendingView::DeleteOutputList { fault, .. } => {
                &&& effect is Disk && effect->Disk_0 is ListDir
                &&& fault is Some || gone
            },
            PendingView::DeleteLeftover { leftovers } => {
                &&& effect is Disk && (effect->Disk_0 is RemoveFile || effect->Disk_0 is
                    RemoveDirAll)
                &&& leftovers.fault is Some || gone
            },
            PendingView::DeleteChunkRows { .. } => effect is Db && gone,
            PendingView::DeleteSessionRow => effect is Db && gone,
            _ => false,
        },
    }
}

proof fn lemma_dir_doomed_to_the_end(
    config: ConfigView,
    id: Seq<char>,
    step: StepView,
    w: World,
    works: Works,
    trace: Seq<(ReplyView, World)>,
    outcome: OutcomeView,
    end: World,
)
    requires
        is_dir_doomed(config, id, step, w),
        runs(config, step, w, works, trace, outcome, end),
    ensures
        outcome is Ok ==> !end.dirs.contains(session_dir(config.data_dir, id)),
    decreases trace.len(),
{
    if let StepView::Run { pending, effect } = step {
        let (reply, after) = trace[0];
        assert(is_dir_doomed(config, id, resumed(config, pending, reply), after));
        lemma_dir_doomed_to_the_end(
            config,
            id,
            resumed(config, pending, reply),
            after,
            works,
            trace.drop_first(),
            outcome,
            end,
        );
    }
}

/// A deletion that was answered has removed the directory of the session.
pub proof fn law_deletion_removes_the_directory(
    config: ConfigView,
    w: World,
    id: Seq<char>,
    works: Works,
    outcome: OutcomeView,
    end: World,
)
    requires
        outcome is Ok,
        ends_where(config, delete(id), w, works, outcome, end),
    ensures
        !end.dirs.contains(session_dir(config.data_dir, id)),
{
    let trace = choose|trace: Seq<(ReplyView, World)>| #[trigger]
        runs(config, delete(id), w, works, trace, outcome, end);
    lemma_dir_doomed_to_the_end(config, id, delete(id), w, works, trace, outcome, end);
}

} // verus!
