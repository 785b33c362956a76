//! Where files are written: a request that opens a file for writing has made the directory that the
//! file stands in.
use vstd::prelude::*;

use crate::config::ConfigView;
use crate::effect::{DiskOpView, EffectView, ReplyView};
use crate::finalize::extension_or_default;
use crate::flow::{PendingView, StepView};
use crate::laws::history::{first_step, RequestView};
use crate::laws::places::{entry, law_files_are_where_they_should_be};
use crate::layout::{
    chunk_file, chunk_name, final_dir, is_name, law_chunk_file_is_in_session_dir,
    law_output_file_stands_in_final_dir, output_file, plain, session_dir,
};
use crate::server::resumed;
use crate::world::{has_dir, is_file_name_part, stands_in, World};

verus! {

/// A path stands in one directory.
pub proof fn lemma_stands_in_one_dir(path: Seq<char>, dir: Seq<char>, name: Seq<char>)
    requires
        is_name(name),
        path == dir.push('/') + name,
    ensures
        forall|other: Seq<char>| #[trigger] stands_in(path, other) <==> other == dir,
{
    assert(path.skip(dir.len() as int + 1) =~= name);
    assert(dir.push('/') =~= path.take(dir.len() as int + 1));
    assert forall|other: Seq<char>| #[trigger] stands_in(path, other) implies other == dir by {
        let other_name = path.skip(other.len() as int + 1);
        assert(path[dir.len() as int] == '/');
        assert(other.push('/')[other.len() as int] == path[other.len() as int]);
        if other.len() < dir.len() {
            let i = dir.len() - other.len() - 1;
            assert(other_name[i] == path[dir.len() as int]);
            assert(other_name.contains(other_name[i]));
        }
        if dir.len() < other.len() {
            let i = other.len() - dir.len() - 1;
            assert(name[i] == path[other.len() as int]);
            assert(name.contains(name[i]));
        }
        assert forall|i: int| 0 <= i < dir.len() implies dir[i] == other[i] by {
            assert(other.push('/')[i] == path[i]);
        }
        assert(other =~= dir);
    }
}

/// A file can be opened where the directory that it stands in is there.
pub proof fn lemma_has_dir(w: World, path: Seq<char>, dir: Seq<char>, name: Seq<char>)
    requires
        is_name(name),
        path == dir.push('/') + name,
    ensures
        has_dir(w, path) <==> w.dirs.contains(dir),
{
    lemma_stands_in_one_dir(path, dir, name);
    assert(stands_in(path, dir));
}

/// Whether the directory that a file at `path` stands in is among those that have been made.
pub open spec fn is_made(made: Set<Seq<char>>, path: Seq<char>) -> bool {
    forall|dir: Seq<char>| #[trigger] stands_in(path, dir) ==> made.contains(dir)
}

/// The directories that have been made, after one more effect and its reply.
pub open spec fn made_after(
    made: Set<Seq<char>>,
    effect: EffectView,
    reply: ReplyView,
) -> Set<Seq<char>> {
    match (effect, reply) {
        (EffectView::Disk(DiskOpView::CreateDirAll { path }), ReplyView::Done) => made.insert(path),
        _ => made,
    }
}

/// Whether a request that is at `step`, and has made the directories `made`, opens no file for
/// writing but in a directory that it has made by then, as long as it gets `replies`.
pub open spec fn makes_dirs_first(
    config: ConfigView,
    step: StepView,
    made: Set<Seq<char>>,
    replies: Seq<ReplyView>,
) -> bool
    decreases replies.len(),
{
    match step {
        StepView::Finish { .. } => true,
        StepView::Run { pending, effect } => {
            &&& effect matches EffectView::Disk(DiskOpView::OpenOutput { path }) ==> is_made(
                made,
                path,
            )
            &&& replies.len() > 0 ==> makes_dirs_first(
                config,
                resumed(config, pending, replies[0]),
                made_after(made, effect, replies[0]),
                replies.drop_first(),
            )
        },
    }
}

/// What holds of a request at every step, on the way to the files that it opens.
spec fn is_on_the_way(step: StepView, made: Set<Seq<char>>) -> bool {
    match step {
        StepView::Finish { .. } => true,
        StepView::Run { pending, effect } => match pending {
            PendingView::UploadResolve { .. } => false,
            PendingView::FinalizeResolve { .. } => false,
            PendingView::UploadLookup { session_id, .. } => plain(session_id) && effect is Db,
            PendingView::UploadDir { chunk } => {
                &&& effect matches EffectView::Disk(DiskOpView::CreateDirAll { path })
                &&& is_made(set![path], chunk.file_path)
            },
            PendingView::UploadOpen { chunk } => is_made(made, chunk.file_path) && effect
                == EffectView::Disk(DiskOpView::OpenOutput { path: chunk.file_path }),
            PendingView::FinalizeDir { output_path, .. } => {
                &&& effect matches EffectView::Disk(DiskOpView::CreateDirAll { path })
                &&& is_made(set![path], output_path)
            },
            PendingView::FinalizeList { output_path, .. } => is_made(made, output_path) && effect
                is Db,
            PendingView::FinalizeOpen { assembly } => is_made(made, assembly.output_path) && effect
                == EffectView::Disk(DiskOpView::OpenOutput { path: assembly.output_path }),
            _ => !(effect matches EffectView::Disk(DiskOpView::OpenOutput { .. })),
        },
    }
}

proof fn lemma_chunk_dir_is_made(config: ConfigView, id: Seq<char>, idx: u32)
    requires
        plain(id),
    ensures
        is_made(
            set![session_dir(config.data_dir, id)],
            chunk_file(config.data_dir, id, idx),
        ),
{
    law_chunk_file_is_in_session_dir(config.data_dir, id, idx);
    lemma_stands_in_one_dir(
        chunk_file(config.data_dir, id, idx),
        session_dir(config.data_dir, id),
        chunk_name(idx),
    );
}

proof fn lemma_goes_on(
    config: ConfigView,
    pending: PendingView,
    effect: EffectView,
    made: Set<Seq<char>>,
    reply: ReplyView,
)
    requires
        is_on_the_way(StepView::Run { pending, effect }, made),
    ensures
        is_on_the_way(resumed(config, pending, reply), made_after(made, effect, reply)),
{
    if let PendingView::UploadLookup { session_id, idx, .. } = pending {
        law_chunk_file_is_in_session_dir(config.data_dir, session_id, idx);
        lemma_chunk_dir_is_made(config, session_id, idx);
    }
}

proof fn lemma_dirs_first(
    config: ConfigView,
    step: StepView,
    made: Set<Seq<char>>,
    replies: Seq<ReplyView>,
)
    requires
        is_on_the_way(step, made),
    ensures
        makes_dirs_first(config, step, made, replies),
    decreases replies.len(),
{
    if let StepView::Run { pending, effect } = step {
        if replies.len() > 0 {
            lemma_goes_on(config, pending, effect, made, replies[0]);
            lemma_dirs_first(
                config,
                resumed(config, pending, replies[0]),
                made_after(made, effect, replies[0]),
                replies.drop_first(),
            );
        }
    }
}

proof fn lemma_finalize_is_on_the_way(
    config: ConfigView,
    id: Seq<char>,
    extension: Option<Seq<char>>,
)
    requires
        is_name(id),
        is_file_name_part(extension_or_default(extension)),
    ensures
        is_on_the_way(
            first_step(config, RequestView::Finalize { id, extension }),
            Set::empty(),
        ),
{
    let extension = extension_or_default(extension);
    law_output_file_stands_in_final_dir(config.data_dir, id, extension);
    lemma_stands_in_one_dir(
        output_file(config.data_dir, id, extension),
        final_dir(config.data_dir),
        id.push('.') + extension,
    );
}

/// Whether the texts of a request that become parts of paths are names, those included that the
/// database finds for a token.
pub open spec fn has_names(request: RequestView, replies: Seq<ReplyView>) -> bool {
    match request {
        RequestView::Upload { id, .. } => plain(id),
        RequestView::UploadByToken { .. } => replies.len() > 0 ==> (replies[0] matches
            ReplyView::Value(Some(id)) ==> plain(id)),
        RequestView::Finalize { id, extension } => is_name(id) && is_file_name_part(
            extension_or_default(extension),
        ),
        RequestView::FinalizeByToken { extension, .. } => {
            &&& replies.len() > 0 ==> (replies[0] matches ReplyView::Value(Some(id)) ==> is_name(
                id,
            ))
            &&& is_file_name_part(extension_or_default(extension))
        },
        _ => true,
    }
}

/// Whenever a request opens a file for writing, it has made the directory that the file stands in
/// before, whatever the replies that it gets.
pub proof fn law_directories_are_made_first(
    config: ConfigView,
    request: RequestView,
    replies: Seq<ReplyView>,
)
    requires
        has_names(request, replies),
    ensures
        makes_dirs_first(config, first_step(config, request), Set::empty(), replies),
{
    let step = first_step(config, request);
    match request {
        RequestView::UploadByToken { req, .. } => {
            if replies.len() > 0 {
                let next = resumed(config, PendingView::UploadResolve { req }, replies[0]);
                lemma_dirs_first(config, next, Set::empty(), replies.drop_first());
            }
        },
        RequestView::FinalizeByToken { extension, .. } => {
            if replies.len() > 0 {
                if let ReplyView::Value(Some(id)) = replies[0] {
                    lemma_finalize_is_on_the_way(config, id, extension);
                }
                let next = resumed(config, PendingView::FinalizeResolve { extension }, replies[0]);
                lemma_dirs_first(config, next, Set::empty(), replies.drop_first());
            }
        },
        RequestView::Finalize { id, extension } => {
            lemma_finalize_is_on_the_way(config, id, extension);
            lemma_dirs_first(config, step, Set::empty(), replies);
        },
        _ => {
            lemma_dirs_first(config, step, Set::empty(), replies);
        },
    }
}

/// Whether a request that is at `step` opens no file for writing but that at `target`, as long as
/// it gets `replies`.
pub open spec fn opens_only(
    config: ConfigView,
    step: StepView,
    target: Option<Seq<char>>,
    replies: Seq<ReplyView>,
) -> bool
    decreases replies.len(),
{
    match step {
        StepView::Finish { .. } => true,
        StepView::Run { pending, effect } => {
            &&& effect matches EffectView::Disk(DiskOpView::OpenOutput { path }) ==> target == Some(
                path,
            )
            &&& replies.len() > 0 ==> opens_only(
                config,
                resumed(config, pending, replies[0]),
                target,
                replies.drop_first(),
            )
        },
    }
}

/// What holds of a request at every step, on the way to the one file that it opens.
spec fn is_aimed_at(config: ConfigView, step: StepView, target: Option<Seq<char>>) -> bool {
    match step {
        StepView::Finish { .. } => true,
        StepView::Run { pending, effect } => {
            &&& effect matches EffectView::Disk(DiskOpView::OpenOutput { path }) ==> target == Some(
                path,
            )
            &&& match pending {
                PendingView::UploadResolve { .. } => false,
                PendingView::FinalizeResolve { .. } => false,
                PendingView::UploadLookup { session_id, idx, .. } => target == Some(
                    chunk_file(config.data_dir, session_id, idx),
                ),
                PendingView::UploadDir { chunk } => target == Some(chunk.file_path),
                PendingView::FinalizeDir { output_path, .. } => target == Some(output_path),
                PendingView::FinalizeList { output_path, .. } => target == Some(output_path),
                _ => true,
            }
        },
    }
}

proof fn lemma_aimed(
    config: ConfigView,
    step: StepView,
    target: Option<Seq<char>>,
    replies: Seq<ReplyView>,
)
    requires
        is_aimed_at(config, step, target),
    ensures
        opens_only(config, step, target, replies),
    decreases replies.len(),
{
    if let StepView::Run { pending, effect } = step {
        if replies.len() > 0 {
            let next = resumed(config, pending, replies[0]);
            assert(is_aimed_at(config, next, target));
            lemma_aimed(config, next, target, replies.drop_first());
        }
    }
}

/// Finalizing writes to one file only, under the session's id and the extension that was asked
/// for, whatever that is; an upload writes to one file only, that of the chunk; and every other
/// request writes to none.
pub proof fn law_each_request_writes_to_its_file(
    config: ConfigView,
    request: RequestView,
    replies: Seq<ReplyView>,
)
    requires
        match request {
            RequestView::Upload { id, .. } => is_name(id),
            RequestView::UploadByToken { .. } => false,
            RequestView::Finalize { id, .. } => is_name(id),
            RequestView::FinalizeByToken { .. } => false,
            _ => true,
        },
    ensures
        opens_only(
            config,
            first_step(config, request),
            match request {
                RequestView::Upload { id, req } => Some(
                    entry(config.data_dir, "chunks/"@ + id + "/"@ + chunk_name(req.idx)),
                ),
                RequestView::Finalize { id, extension } => Some(
                    entry(
                        config.data_dir,
                        match extension {
                            Some(extension) => "final/"@ + id + "."@ + extension,
                            None => "final/"@ + id + ".webm"@,
                        },
                    ),
                ),
                _ => None,
            },
            replies,
        ),
{
    let step = first_step(config, request);
    match request {
        RequestView::Upload { id, req } => {
            law_files_are_where_they_should_be(config.data_dir, config.web_dir, id, req.idx, ""@);
            lemma_aimed(
                config,
                step,
                Some(chunk_file(config.data_dir, id, req.idx)),
                replies,
            );
        },
        RequestView::Finalize { id, extension } => {
            let name = extension_or_default(extension);
            law_files_are_where_they_should_be(config.data_dir, config.web_dir, id, 0, name);
            lemma_aimed(config, step, Some(output_file(config.data_dir, id, name)), replies);
        },
        _ => {
            lemma_aimed(config, step, None, replies);
        },
    }
}

} // verus!
