//! What the effects do: a model of the database and of the disk, and of a request that runs
//! against them, one request at a time. Files are told apart by the text of their paths.
use vstd::prelude::*;

use crate::codec::digest_text;
use crate::config::ConfigView;
use crate::effect::{
    DirEntryView, DiskOpView, EffectView, ListedChunkView, QueryView, ReplyView,
};
use crate::flow::{PendingView, StepView};
use crate::layout::{chunk_file, inside, is_name, output_file, plain};
use crate::messages::{OutcomeView, SessionRowView, INTERNAL_SERVER_ERROR};
use crate::path::join;
use crate::server::resumed;

verus! {

/// A row of the table of chunks.
pub struct ChunkRow {
    pub byte_len: i64,
    pub sha256_hex: Seq<char>,
    pub file_path: Seq<char>,
}

/// The two tables, the sessions by id and the chunks by session and index; the contents of the
/// files by path; the directories; and the path of the file that is open for writing, with what has
/// been written to it. That is sure to be in the file once it has been flushed.
pub struct World {
    pub sessions: Map<Seq<char>, SessionRowView>,
    pub chunks: Map<(Seq<char>, i64), ChunkRow>,
    pub files: Map<Seq<char>, Seq<u8>>,
    pub dirs: Set<Seq<char>>,
    pub open: Option<Seq<char>>,
    pub written: Seq<u8>,
}

/// Whether `token` opens the session `id`.
pub open spec fn opens(w: World, token: Seq<char>, id: Seq<char>) -> bool {
    w.sessions.contains_key(id) && w.sessions[id].secret_token == Some(token)
}

/// Whether `token` opens any session.
pub open spec fn opens_some(w: World, token: Seq<char>) -> bool {
    exists|id: Seq<char>| opens(w, token, id)
}

/// The row of a session that has just been added. The time is the database's.
pub open spec fn is_fresh_row(
    row: SessionRowView,
    id: Seq<char>,
    mime_type: Option<Seq<char>>,
    secret_token: Seq<char>,
) -> bool {
    &&& row.id == id
    &&& row.status == "recording"@
    &&& row.mime_type == mime_type
    &&& row.completed_at is None
    &&& row.output_path is None
    &&& row.secret_token == Some(secret_token)
}

/// The row of a session that has just been finalized. The time is the database's.
pub open spec fn is_finalized_row(
    row: SessionRowView,
    before: SessionRowView,
    output_path: Seq<char>,
) -> bool {
    &&& row.id == before.id
    &&& row.status == "finalized"@
    &&& row.mime_type == before.mime_type
    &&& row.created_at == before.created_at
    &&& row.completed_at is Some
    &&& row.output_path == Some(output_path)
    &&& row.secret_token == before.secret_token
}

/// Whether `list` holds each chunk of a session once, by ascending index, and nothing else.
pub open spec fn lists_in_order(
    w: World,
    session_id: Seq<char>,
    list: Seq<ListedChunkView>,
) -> bool {
    &&& forall|i: int, j: int| 0 <= i < j < list.len() ==> list[i].idx < list[j].idx
    &&& forall|i: int|
        0 <= i < list.len() ==> w.chunks.contains_key((session_id, (#[trigger] list[i]).idx))
            && w.chunks[(session_id, list[i].idx)].file_path == list[i].file_path
    &&& forall|idx: i64| #[trigger]
        w.chunks.contains_key((session_id, idx)) ==> exists|i: int|
            0 <= i < list.len() && (#[trigger] list[i]).idx == idx
}

/// Whether `path` is the file of a chunk of a session.
pub open spec fn is_file_of_chunk(w: World, session_id: Seq<char>, path: Seq<char>) -> bool {
    exists|idx: i64| #[trigger]
        w.chunks.contains_key((session_id, idx)) && w.chunks[(session_id, idx)].file_path == path
}

/// Whether `list` holds the files of a session's chunks and nothing else.
pub open spec fn lists_files(w: World, session_id: Seq<char>, list: Seq<Seq<char>>) -> bool {
    &&& forall|i: int|
        0 <= i < list.len() ==> is_file_of_chunk(w, session_id, #[trigger] list[i])
    &&& forall|idx: i64| #[trigger]
        w.chunks.contains_key((session_id, idx)) ==> list.contains(
            w.chunks[(session_id, idx)].file_path,
        )
}

/// What a statement that succeeds does, and what it replies.
pub open spec fn query_succeeds(
    w: World,
    query: QueryView,
    reply: ReplyView,
    after: World,
) -> bool {
    match query {
        QueryView::InsertSession { id, mime_type, secret_token } => {
            &&& reply is Done
            &&& !w.sessions.contains_key(id)
            &&& !opens_some(w, secret_token)
            &&& after.chunks == w.chunks
            &&& after.sessions.contains_key(id)
            &&& is_fresh_row(after.sessions[id], id, mime_type, secret_token)
            &&& after.sessions == w.sessions.insert(id, after.sessions[id])
        },
        QueryView::SessionById { id } => {
            &&& after == w
            &&& reply == ReplyView::Session(
                if w.sessions.contains_key(id) {
                    Some(w.sessions[id])
                } else {
                    None
                },
            )
        },
        QueryView::SessionIdByToken { token } => {
            &&& after == w
            &&& match reply {
                ReplyView::Value(Some(id)) => opens(w, token, id),
                ReplyView::Value(None) => !opens_some(w, token),
                _ => false,
            }
        },
        QueryView::SecretTokenById { id } => {
            &&& after == w
            &&& reply == ReplyView::Column(
                if w.sessions.contains_key(id) {
                    Some(w.sessions[id].secret_token)
                } else {
                    None
                },
            )
        },
        QueryView::OutputPathById { id } => {
            &&& after == w
            &&& reply == ReplyView::Column(
                if w.sessions.contains_key(id) {
                    Some(w.sessions[id].output_path)
                } else {
                    None
                },
            )
        },
        QueryView::RecordingByToken { token } => {
            &&& after == w
            &&& match reply {
                ReplyView::Recording(Some(recording)) => {
                    &&& opens(w, token, recording.session_id)
                    &&& recording.output_path == w.sessions[recording.session_id].output_path
                },
                ReplyView::Recording(None) => !opens_some(w, token),
                _ => false,
            }
        },
        QueryView::ChunkDigest { session_id, idx } => {
            &&& after == w
            &&& reply == ReplyView::Value(
                if w.chunks.contains_key((session_id, idx)) {
                    Some(w.chunks[(session_id, idx)].sha256_hex)
                } else {
                    None
                },
            )
        },
        QueryView::InsertChunk { session_id, idx, byte_len, sha256_hex, file_path } => {
            &&& reply is Done
            &&& !w.chunks.contains_key((session_id, idx))
            &&& after.sessions == w.sessions
            &&& after.chunks == w.chunks.insert(
                (session_id, idx),
                ChunkRow { byte_len, sha256_hex, file_path },
            )
        },
        QueryView::ChunksInOrder { session_id } => {
            &&& after == w
            &&& match reply {
                ReplyView::Chunks(list) => lists_in_order(w, session_id, list),
                _ => false,
            }
        },
        QueryView::ChunkFiles { session_id } => {
            &&& after == w
            &&& match reply {
                ReplyView::Paths(list) => lists_files(w, session_id, list),
                _ => false,
            }
        },
        QueryView::FinalizeSession { output_path, id } => {
            &&& reply is Done
            &&& after.chunks == w.chunks
            &&& if w.sessions.contains_key(id) {
                &&& after.sessions.contains_key(id)
                &&& is_finalized_row(after.sessions[id], w.sessions[id], output_path)
                &&& after.sessions == w.sessions.insert(id, after.sessions[id])
            } else {
                after.sessions == w.sessions
            }
        },
        QueryView::DeleteChunks { session_id } => {
            &&& reply is Done
            &&& after.sessions == w.sessions
            &&& forall|key: (Seq<char>, i64)| #[trigger]
                after.chunks.contains_key(key) <==> w.chunks.contains_key(key) && key.0
                    != session_id
            &&& forall|key: (Seq<char>, i64)| #[trigger]
                after.chunks.contains_key(key) ==> after.chunks[key] == w.chunks[key]
        },
        QueryView::DeleteSession { id } => {
            &&& reply is Done
            &&& after.chunks == w.chunks
            &&& after.sessions == w.sessions.remove(id)
        },
    }
}

/// What a statement does, and what it replies. One that fails does nothing.
pub open spec fn query_performs(
    w: World,
    query: QueryView,
    reply: ReplyView,
    after: World,
) -> bool {
    if reply is Failed {
        after == w
    } else {
        &&& after == (World { sessions: after.sessions, chunks: after.chunks, ..w })
        &&& query_succeeds(w, query, reply, after)
    }
}

/// Whether a statement has to fail: what it would add is there already.
pub open spec fn query_must_fail(w: World, query: QueryView) -> bool {
    match query {
        QueryView::InsertSession { id, secret_token, .. } => w.sessions.contains_key(id)
            || opens_some(w, secret_token),
        QueryView::InsertChunk { session_id, idx, .. } => w.chunks.contains_key((session_id, idx)),
        _ => false,
    }
}

/// Whether no file but the one at `path` differs.
pub open spec fn same_files_but(
    files: Map<Seq<char>, Seq<u8>>,
    after: Map<Seq<char>, Seq<u8>>,
    path: Seq<char>,
) -> bool {
    forall|p: Seq<char>|
        #![trigger files.contains_key(p)]
        #![trigger after.contains_key(p)]
        p != path ==> {
            &&& files.contains_key(p) <==> after.contains_key(p)
            &&& files.contains_key(p) ==> after[p] == files[p]
        }
}

/// Whether no file has been added or changed, and none has been removed that is not inside the
/// directory `dir`.
pub open spec fn only_files_inside_gone(
    files: Map<Seq<char>, Seq<u8>>,
    after: Map<Seq<char>, Seq<u8>>,
    dir: Seq<char>,
) -> bool {
    &&& forall|p: Seq<char>| #[trigger]
        after.contains_key(p) ==> files.contains_key(p) && after[p] == files[p]
    &&& forall|p: Seq<char>| #[trigger]
        files.contains_key(p) && !inside(p, dir) ==> after.contains_key(p)
}

/// Whether no file is inside the directory `dir`.
pub open spec fn no_file_inside(files: Map<Seq<char>, Seq<u8>>, dir: Seq<char>) -> bool {
    forall|p: Seq<char>| #[trigger] files.contains_key(p) ==> !inside(p, dir)
}

/// Whether the file at `path` is behind an entry of the directory `dir`: it is the entry, or is
/// inside the directory that the entry is.
pub open spec fn is_behind(path: Seq<char>, dir: Seq<char>, entry: DirEntryView) -> bool {
    if entry.is_dir {
        inside(path, join(dir, entry.name))
    } else {
        path == join(dir, entry.name)
    }
}

/// Whether `entries` are those of the directory `dir`: each has a name, and every file inside the
/// directory is behind one of them.
pub open spec fn lists_entries(
    files: Map<Seq<char>, Seq<u8>>,
    dir: Seq<char>,
    entries: Seq<DirEntryView>,
) -> bool {
    &&& forall|i: int|
        0 <= i < entries.len() ==> is_name((#[trigger] entries[i]).name)
    &&& forall|p: Seq<char>| #[trigger]
        files.contains_key(p) && inside(p, dir) ==> exists|i: int|
            0 <= i < entries.len() && is_behind(p, dir, #[trigger] entries[i])
}

/// Whether `path` is the path of something directly in the directory `dir`.
pub open spec fn stands_in(path: Seq<char>, dir: Seq<char>) -> bool {
    inside(path, dir) && is_name(path.skip(dir.len() as int + 1))
}

/// Whether the directory that a file at `path` would stand in is there.
pub open spec fn has_dir(w: World, path: Seq<char>) -> bool {
    forall|dir: Seq<char>| #[trigger] stands_in(path, dir) ==> w.dirs.contains(dir)
}

/// Whether no directory has been added, and none has been removed but `dir` and what is inside it.
pub open spec fn only_dirs_inside_gone(
    dirs: Set<Seq<char>>,
    after: Set<Seq<char>>,
    dir: Seq<char>,
) -> bool {
    &&& after.subset_of(dirs)
    &&& forall|d: Seq<char>| #[trigger]
        dirs.contains(d) && d != dir && !inside(d, dir) ==> after.contains(d)
}

/// Whether neither the directory `dir` is there nor one inside it.
pub open spec fn no_dir_inside(dirs: Set<Seq<char>>, dir: Seq<char>) -> bool {
    forall|d: Seq<char>| #[trigger] dirs.contains(d) ==> d != dir && !inside(d, dir)
}

/// What work on the disk does to the files and directories, and what it replies. Work that fails
/// may have been done in part. A file can be opened only in a directory that is there.
pub open spec fn disk_performs(w: World, op: DiskOpView, reply: ReplyView, after: World) -> bool {
    match op {
        DiskOpView::CreateDirAll { path } => {
            &&& reply is Done || reply is Failed
            &&& after == (World { dirs: after.dirs, ..w })
            &&& w.dirs.subset_of(after.dirs)
            &&& reply is Done ==> after.dirs.contains(path)
        },
        DiskOpView::OpenOutput { path } => {
            &&& after.dirs == w.dirs
            &&& match reply {
                ReplyView::Done => {
                    &&& has_dir(w, path)
                    &&& after.files == w.files.insert(path, seq![])
                    &&& after.open == Some(path)
                    &&& after.written == Seq::<u8>::empty()
                },
                ReplyView::Failed(_) => same_files_but(w.files, after.files, path),
                _ => false,
            }
        },
        DiskOpView::WriteOutput { bytes } => {
            &&& after.dirs == w.dirs
            &&& match (w.open, reply) {
                (Some(path), ReplyView::Done) => {
                    &&& same_files_but(w.files, after.files, path)
                    &&& after.open == w.open
                    &&& after.written == w.written + bytes
                },
                (Some(path), ReplyView::Failed(_)) => same_files_but(w.files, after.files, path),
                (None, ReplyView::Failed(_)) => after == w,
                _ => false,
            }
        },
        DiskOpView::FlushOutput => {
            &&& after.dirs == w.dirs
            &&& match (w.open, reply) {
                (Some(path), ReplyView::Done) => {
                    &&& after.files == w.files.insert(path, w.written)
                    &&& after.open is None
                },
                (Some(path), ReplyView::Failed(_)) => same_files_but(w.files, after.files, path),
                (None, ReplyView::Failed(_)) => after == w,
                _ => false,
            }
        },
        DiskOpView::ReadFile { path } => {
            &&& after == w
            &&& match reply {
                ReplyView::Bytes(bytes) => w.files.contains_key(path) && bytes == w.files[path],
                ReplyView::Failed(_) => true,
                _ => false,
            }
        },
        DiskOpView::ReadText { path } => {
            &&& after == w
            &&& match reply {
                ReplyView::Page(text) => w.files.contains_key(path) && vstd::utf8::encode_utf8(text)
                    == w.files[path],
                ReplyView::Failed(_) => true,
                _ => false,
            }
        },
        DiskOpView::ListDir { path } => {
            &&& after == w
            &&& match reply {
                ReplyView::Entries(entries) => lists_entries(w.files, path, entries),
                ReplyView::Missing => !w.dirs.contains(path) && no_file_inside(w.files, path),
                ReplyView::Failed(_) => true,
                _ => false,
            }
        },
        DiskOpView::RemoveFile { path } => {
            &&& after == (World { files: after.files, ..w })
            &&& match reply {
                ReplyView::Done => w.files.contains_key(path) && after.files == w.files.remove(
                    path,
                ),
                ReplyView::Missing => !w.files.contains_key(path) && after.files == w.files,
                ReplyView::Failed(_) => after.files == w.files,
                _ => false,
            }
        },
        DiskOpView::RemoveDirAll { path } => {
            &&& after == (World { files: after.files, dirs: after.dirs, ..w })
            &&& match reply {
                ReplyView::Done => {
                    &&& only_files_inside_gone(w.files, after.files, path)
                    &&& only_dirs_inside_gone(w.dirs, after.dirs, path)
                    &&& no_file_inside(after.files, path)
                    &&& no_dir_inside(after.dirs, path)
                },
                ReplyView::Missing => {
                    &&& no_file_inside(w.files, path)
                    &&& no_dir_inside(w.dirs, path)
                    &&& after == w
                },
                ReplyView::Failed(_) => {
                    &&& only_files_inside_gone(w.files, after.files, path)
                    &&& only_dirs_inside_gone(w.dirs, after.dirs, path)
                },
                _ => false,
            }
        },
    }
}

/// What an effect does, and what it replies.
pub open spec fn performs(w: World, effect: EffectView, reply: ReplyView, after: World) -> bool {
    match effect {
        EffectView::Db(query) => query_performs(w, query, reply, after),
        EffectView::Disk(op) => {
            &&& after.sessions == w.sessions
            &&& after.chunks == w.chunks
            &&& disk_performs(w, op, reply, after)
        },
    }
}

/// Whether an effect has to fail: a statement that would add what is there already, a file that is
/// to be read and is not there or is not text, and one that is to be written and has no directory
/// or has not been opened.
pub open spec fn must_fail(w: World, effect: EffectView) -> bool {
    match effect {
        EffectView::Db(query) => query_must_fail(w, query),
        EffectView::Disk(DiskOpView::OpenOutput { path }) => !has_dir(w, path),
        EffectView::Disk(DiskOpView::WriteOutput { .. }) => w.open is None,
        EffectView::Disk(DiskOpView::FlushOutput) => w.open is None,
        EffectView::Disk(DiskOpView::ReadFile { path }) => !w.files.contains_key(path),
        EffectView::Disk(DiskOpView::ReadText { path }) => !w.files.contains_key(path) || !(
        exists|text: Seq<char>| #[trigger] vstd::utf8::encode_utf8(text) == w.files[path]),
        EffectView::Disk(_) => false,
    }
}

/// What does its work in a run: no statement fails where the database does, and no work on the
/// disk fails where the disk does, except such as is spared. In a fair run nothing fails but what
/// has to.
pub struct Works {
    pub database: bool,
    pub disk: bool,
    pub spared: Set<DiskOpView>,
    pub fair: bool,
}

impl Works {
    /// Whether the effect cannot fail.
    pub open spec fn covers(self, effect: EffectView) -> bool {
        match effect {
            EffectView::Db(_) => self.database,
            EffectView::Disk(op) => self.disk && !self.spared.contains(op),
        }
    }

    /// Whether the effect cannot fail in the world `w`.
    pub open spec fn covers_in(self, w: World, effect: EffectView) -> bool {
        self.covers(effect) || (self.fair && !must_fail(w, effect))
    }
}

/// That everything does its work, or that nothing need.
pub open spec fn all_works(smooth: bool) -> Works {
    Works { database: smooth, disk: smooth, spared: Set::empty(), fair: false }
}

/// That nothing fails but what has to.
pub open spec fn fairly() -> Works {
    Works { database: false, disk: false, spared: Set::empty(), fair: true }
}

/// Whether a request that is at `step` in the world `w` runs through the replies and worlds of
/// `trace` to end with `outcome` in the world `end`.
pub open spec fn runs(
    config: ConfigView,
    step: StepView,
    w: World,
    works: Works,
    trace: Seq<(ReplyView, World)>,
    outcome: OutcomeView,
    end: World,
) -> bool
    decreases trace.len(),
{
    match step {
        StepView::Finish { outcome: reached } => trace.len() == 0 && outcome == reached && end == w,
        StepView::Run { pending, effect } => {
            &&& trace.len() > 0
            &&& performs(w, effect, trace[0].0, trace[0].1)
            &&& works.covers_in(w, effect) ==> !(trace[0].0 is Failed)
            &&& runs(
                config,
                resumed(config, pending, trace[0].0),
                trace[0].1,
                works,
                trace.drop_first(),
                outcome,
                end,
            )
        },
    }
}

/// Whether a request that is at `step` in the world `w` can end with `outcome` in the world
/// `end`, while that does its work which `works` says.
pub open spec fn ends_where(
    config: ConfigView,
    step: StepView,
    w: World,
    works: Works,
    outcome: OutcomeView,
    end: World,
) -> bool {
    exists|trace: Seq<(ReplyView, World)>| #[trigger]
        runs(config, step, w, works, trace, outcome, end)
}

/// Whether a request that is at `step` in the world `w` can end with `outcome` in the world
/// `end`; if `smooth`, without any effect that fails.
pub open spec fn ends(
    config: ConfigView,
    step: StepView,
    w: World,
    smooth: bool,
    outcome: OutcomeView,
    end: World,
) -> bool {
    ends_where(config, step, w, all_works(smooth), outcome, end)
}

/// Whether a request ended because the server could not do its work.
pub open spec fn server_failed(outcome: OutcomeView) -> bool {
    outcome matches Err(failure) && failure.status == INTERNAL_SERVER_ERROR
}

/// A request that wants an effect gets a reply to it and goes on.
pub proof fn lemma_step_where(
    config: ConfigView,
    pending: PendingView,
    effect: EffectView,
    w: World,
    works: Works,
    outcome: OutcomeView,
    end: World,
) -> (r: (ReplyView, World))
    requires
        ends_where(config, StepView::Run { pending, effect }, w, works, outcome, end),
    ensures
        performs(w, effect, r.0, r.1),
        ends_where(config, resumed(config, pending, r.0), r.1, works, outcome, end),
        works.covers_in(w, effect) ==> !(r.0 is Failed),
{
    let step = StepView::Run { pending, effect };
    let trace = choose|trace: Seq<(ReplyView, World)>| #[trigger]
        runs(config, step, w, works, trace, outcome, end);
    assert(runs(
        config,
        resumed(config, pending, trace[0].0),
        trace[0].1,
        works,
        trace.drop_first(),
        outcome,
        end,
    ));
    trace[0]
}

/// A request that wants an effect gets a reply to it and goes on.
pub proof fn lemma_step(
    config: ConfigView,
    pending: PendingView,
    effect: EffectView,
    w: World,
    smooth: bool,
    outcome: OutcomeView,
    end: World,
) -> (r: (ReplyView, World))
    requires
        ends(config, StepView::Run { pending, effect }, w, smooth, outcome, end),
    ensures
        performs(w, effect, r.0, r.1),
        ends(config, resumed(config, pending, r.0), r.1, smooth, outcome, end),
        smooth ==> !(r.0 is Failed),
{
    lemma_step_where(config, pending, effect, w, all_works(smooth), outcome, end)
}

/// The bytes of a chunk that the database knows and the disk has.
pub open spec fn stored(w: World, session_id: Seq<char>, idx: u32) -> Option<Seq<u8>> {
    let key = (session_id, idx as i64);
    if w.chunks.contains_key(key) && w.files.contains_key(w.chunks[key].file_path) {
        Some(w.files[w.chunks[key].file_path])
    } else {
        None
    }
}

/// The bytes of the stored chunks with an index below `n`, by ascending index.
pub open spec fn recording_below(w: World, session_id: Seq<char>, n: nat) -> Seq<u8>
    decreases n,
{
    if n == 0 {
        seq![]
    } else {
        let before = recording_below(w, session_id, (n - 1) as nat);
        match stored(w, session_id, (n - 1) as u32) {
            Some(bytes) => before + bytes,
            None => before,
        }
    }
}

/// A session's recording: the bytes of its stored chunks by ascending index.
pub open spec fn recording(w: World, session_id: Seq<char>) -> Seq<u8> {
    recording_below(w, session_id, 0x1_0000_0000)
}

/// Whether a chunk is on disk as its row says.
pub open spec fn chunk_is_intact(w: World, key: (Seq<char>, i64)) -> bool {
    let row = w.chunks[key];
    &&& w.files.contains_key(row.file_path)
    &&& row.byte_len == w.files[row.file_path].len() as i64
    &&& row.sha256_hex == digest_text(w.files[row.file_path])
}

/// Whether every chunk of a session that the database knows is on disk, complete and with the
/// digest that was recorded.
pub open spec fn intact(w: World, session_id: Seq<char>) -> bool {
    forall|idx: i64| #[trigger]
        w.chunks.contains_key((session_id, idx)) ==> chunk_is_intact(w, (session_id, idx))
}

/// Whether a chunk's row is where and as an upload puts it.
pub open spec fn chunk_is_placed(config: ConfigView, w: World, key: (Seq<char>, i64)) -> bool {
    &&& is_name(key.0)
    &&& 0 <= key.1 <= u32::MAX
    &&& w.chunks[key].file_path == chunk_file(config.data_dir, key.0, key.1 as u32)
}

/// Whether a text can be a part of a file's name. With a slash in it, it would name directories,
/// and two paths could lead to one file.
pub open spec fn is_file_name_part(text: Seq<char>) -> bool {
    !text.contains('/')
}

/// Whether a session's row is as the server writes it.
pub open spec fn session_is_placed(config: ConfigView, w: World, id: Seq<char>) -> bool {
    let row = w.sessions[id];
    &&& plain(id)
    &&& row.id == id
    &&& row.output_path matches Some(path) ==> exists|extension: Seq<char>|
        is_file_name_part(extension) && path == #[trigger] output_file(
            config.data_dir,
            id,
            extension,
        )
}

/// The state that the server keeps: every session's files are its own, and no token opens two
/// sessions.
pub open spec fn sound(config: ConfigView, w: World) -> bool {
    &&& forall|key: (Seq<char>, i64)| #[trigger]
        w.chunks.contains_key(key) ==> chunk_is_placed(config, w, key)
    &&& forall|id: Seq<char>| #[trigger]
        w.sessions.contains_key(id) ==> session_is_placed(config, w, id)
    &&& forall|token: Seq<char>, id: Seq<char>, other: Seq<char>| #[trigger]
        opens(w, token, id) && #[trigger] opens(w, token, other) ==> id == other
}

/// Whether all that is known of a session's chunks in `w` still is in `after`, with the same bytes
/// on disk.
pub open spec fn keeps_chunks_of(w: World, after: World, session_id: Seq<char>) -> bool {
    forall|idx: i64| #[trigger]
        w.chunks.contains_key((session_id, idx)) ==> {
            let row = w.chunks[(session_id, idx)];
            &&& after.chunks.contains_key((session_id, idx))
            &&& after.chunks[(session_id, idx)] == row
            &&& w.files.contains_key(row.file_path) ==> after.files.contains_key(row.file_path)
                && after.files[row.file_path] == w.files[row.file_path]
        }
}

/// Whether a session lost nothing: its chunks are kept, and are intact if they were.
pub open spec fn keeps_session(w: World, after: World, session_id: Seq<char>) -> bool {
    &&& keeps_chunks_of(w, after, session_id)
    &&& intact(w, session_id) ==> intact(after, session_id)
}

/// Whether no session lost anything.
pub open spec fn keeps_chunks(w: World, after: World) -> bool {
    forall|session_id: Seq<char>| #[trigger] keeps_session(w, after, session_id)
}

} // verus!
