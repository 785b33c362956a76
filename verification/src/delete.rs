//! Deleting a recording: its chunk files, its directory, its finalized files and then its rows. A
//! file that is missing already is no error. Where something cannot be removed, the rest is
//! removed all the same; and where it may still be there at the end, the deletion fails while the
//! rows still stand, so that it can be repeated.
use vstd::prelude::*;

use crate::config::{AppConfig, ConfigView};
use crate::effect::{
    entry_views, DirEntry, DirEntryView, DiskOp, DiskOpView, Query, QueryView, Reply, ReplyView,
};
use crate::flow::{
    answer, answers, ask, asks, astray, break_off, breaks, fail, fails, go_astray, refuse, refuses,
    work, works, Leftovers, LeftoversView, Pending, PendingView, Removal, RemovalView, Step,
    StepView,
};
use crate::layout::{
    final_dir, final_dir_path, inside, is_inside, is_output_name, is_output_path, leads_to_output,
    session_dir, session_dir_path,
};
use crate::lookup::{find_session_id_by_token, session_of_token};
use crate::messages::{Response, ResponseView, NOT_FOUND};
use crate::path::{join, join_path};
use crate::text::{joined, opt_text, starts_with};

verus! {

/// The first step of deleting a session.
pub open spec fn delete(session_id: Seq<char>) -> StepView {
    asks(PendingView::DeleteLookup { session_id }, QueryView::OutputPathById { id: session_id })
}

/// The first step of deleting the session with a token.
pub open spec fn delete_token(token: Seq<char>) -> StepView {
    asks(PendingView::DeleteResolve, QueryView::SessionIdByToken { token })
}

/// After the session of the token was looked up.
pub open spec fn delete_resolved(reply: ReplyView) -> StepView {
    match session_of_token(reply) {
        Ok(session_id) => delete(session_id),
        Err(failure) => fails(failure),
    }
}

/// After the session was looked up.
pub open spec fn delete_looked_up(session_id: Seq<char>, reply: ReplyView) -> StepView {
    match reply {
        ReplyView::Column(Some(output)) => asks(
            PendingView::DeleteList { session_id, output },
            QueryView::ChunkFiles { session_id },
        ),
        ReplyView::Column(None) => refuses(NOT_FOUND, "session not found"@),
        ReplyView::Failed(message) => breaks(message),
        _ => astray(),
    }
}

/// The first failure that may have left something behind, after a further reply.
pub open spec fn noted(fault: Option<Seq<char>>, reply: ReplyView) -> Option<Seq<char>> {
    match (fault, reply) {
        (None, ReplyView::Failed(message)) => Some(message),
        _ => fault,
    }
}

/// Whether a reply is one that the removal of something has. What is missing is not to be removed.
pub open spec fn is_removal_reply(reply: ReplyView) -> bool {
    reply is Done || reply is Missing || reply is Failed
}

/// The step that removes the next chunk file, or the directory where none is left.
pub open spec fn next_removal(config: ConfigView, removal: RemovalView) -> StepView {
    if removal.next < removal.files.len() {
        let path = removal.files[removal.next];
        works(
            PendingView::DeleteFile {
                removal: RemovalView { next: removal.next + 1, ..removal },
                path,
            },
            DiskOpView::RemoveFile { path },
        )
    } else {
        works(
            PendingView::DeleteDir {
                session_id: removal.session_id,
                output: removal.output,
                fault: removal.fault,
            },
            DiskOpView::RemoveDirAll { path: session_dir(config.data_dir, removal.session_id) },
        )
    }
}

/// After the chunks were listed.
pub open spec fn delete_listed(
    config: ConfigView,
    session_id: Seq<char>,
    output: Option<Seq<char>>,
    reply: ReplyView,
) -> StepView {
    match reply {
        ReplyView::Paths(files) => next_removal(
            config,
            RemovalView { session_id, output, files, next: 0, fault: None },
        ),
        ReplyView::Failed(message) => breaks(message),
        _ => astray(),
    }
}

/// After the chunk file at `path` was removed, or was not. One that is inside the directory of the
/// session goes with the directory.
pub open spec fn delete_file_removed(
    config: ConfigView,
    removal: RemovalView,
    path: Seq<char>,
    reply: ReplyView,
) -> StepView {
    if !is_removal_reply(reply) {
        astray()
    } else if inside(path, session_dir(config.data_dir, removal.session_id)) {
        next_removal(config, removal)
    } else {
        next_removal(config, RemovalView { fault: noted(removal.fault, reply), ..removal })
    }
}

/// The step that lists the finalized files.
pub open spec fn lists_outputs(
    config: ConfigView,
    session_id: Seq<char>,
    fault: Option<Seq<char>>,
) -> StepView {
    works(
        PendingView::DeleteOutputList { session_id, fault },
        DiskOpView::ListDir { path: final_dir(config.data_dir) },
    )
}

/// After the directory was removed, or was not: the file that the session was last finalized into
/// comes next, if it was.
pub open spec fn delete_dir_removed(
    config: ConfigView,
    session_id: Seq<char>,
    output: Option<Seq<char>>,
    fault: Option<Seq<char>>,
    reply: ReplyView,
) -> StepView {
    let fault = noted(fault, reply);
    if !is_removal_reply(reply) {
        astray()
    } else {
        match output {
            Some(path) => works(
                PendingView::DeleteOutput { session_id, path, fault },
                DiskOpView::RemoveFile { path },
            ),
            None => lists_outputs(config, session_id, fault),
        }
    }
}

/// After the finalized file at `path` was removed, or was not. If it is still there, and where the
/// finalized files are listed, it is met again.
pub open spec fn delete_output_removed(
    config: ConfigView,
    session_id: Seq<char>,
    path: Seq<char>,
    fault: Option<Seq<char>>,
    reply: ReplyView,
) -> StepView {
    if !is_removal_reply(reply) {
        astray()
    } else if is_output_path(config.data_dir, session_id, path) {
        lists_outputs(config, session_id, fault)
    } else {
        lists_outputs(config, session_id, noted(fault, reply))
    }
}

/// Those entries among the finalized files that are a session's: it may have been finalized more
/// than once, each time with another extension.
pub open spec fn own_entries(
    entries: Seq<DirEntryView>,
    session_id: Seq<char>,
) -> Seq<DirEntryView> {
    entries.filter(|entry: DirEntryView| is_output_name(entry.name, session_id))
}

/// The step that removes the rows of the chunks, unless something may have been left behind.
pub open spec fn removes_chunk_rows(
    session_id: Seq<char>,
    fault: Option<Seq<char>>,
) -> StepView {
    match fault {
        Some(message) => breaks(message),
        None => asks(
            PendingView::DeleteChunkRows { session_id },
            QueryView::DeleteChunks { session_id },
        ),
    }
}

/// The work that removes an entry among the finalized files.
pub open spec fn removes_entry(config: ConfigView, entry: DirEntryView) -> DiskOpView {
    let path = join(final_dir(config.data_dir), entry.name);
    if entry.is_dir {
        DiskOpView::RemoveDirAll { path }
    } else {
        DiskOpView::RemoveFile { path }
    }
}

/// The step that removes the next entry, or the rows where none is left.
pub open spec fn next_leftover(config: ConfigView, leftovers: LeftoversView) -> StepView {
    if leftovers.next < leftovers.entries.len() {
        works(
            PendingView::DeleteLeftover {
                leftovers: LeftoversView { next: leftovers.next + 1, ..leftovers },
            },
            removes_entry(config, leftovers.entries[leftovers.next]),
        )
    } else {
        removes_chunk_rows(leftovers.session_id, leftovers.fault)
    }
}

/// After the finalized files were listed.
pub open spec fn delete_outputs_listed(
    config: ConfigView,
    session_id: Seq<char>,
    fault: Option<Seq<char>>,
    reply: ReplyView,
) -> StepView {
    match reply {
        ReplyView::Entries(entries) => next_leftover(
            config,
            LeftoversView {
                session_id,
                entries: own_entries(entries, session_id),
                next: 0,
                fault,
            },
        ),
        ReplyView::Missing => removes_chunk_rows(session_id, fault),
        ReplyView::Failed(_) => removes_chunk_rows(session_id, noted(fault, reply)),
        _ => astray(),
    }
}

/// After an entry was removed, or was not.
pub open spec fn delete_leftover_removed(
    config: ConfigView,
    leftovers: LeftoversView,
    reply: ReplyView,
) -> StepView {
    if !is_removal_reply(reply) {
        astray()
    } else {
        next_leftover(config, LeftoversView { fault: noted(leftovers.fault, reply), ..leftovers })
    }
}

/// After the rows of the chunks were removed.
pub open spec fn delete_chunk_rows_removed(session_id: Seq<char>, reply: ReplyView) -> StepView {
    match reply {
        ReplyView::Done => asks(
            PendingView::DeleteSessionRow,
            QueryView::DeleteSession { id: session_id },
        ),
        ReplyView::Failed(message) => breaks(message),
        _ => astray(),
    }
}

/// After the row of the session was removed.
pub open spec fn delete_session_row_removed(reply: ReplyView) -> StepView {
    match reply {
        ReplyView::Done => answers(ResponseView::Text("deleted"@)),
        ReplyView::Failed(message) => breaks(message),
        _ => astray(),
    }
}

/// Starts deleting a session.
pub fn delete_session_files_and_metadata(session_id: String) -> (step: Step)
    ensures
        step@ == delete(session_id@),
{
    let query = Query::OutputPathById { id: session_id.clone() };
    ask(Pending::DeleteLookup { session_id }, query)
}

/// Answers a request to delete by session id.
pub fn delete_session_by_id(id: String) -> (step: Step)
    ensures
        step@ == delete(id@),
{
    delete_session_files_and_metadata(id)
}

/// Answers a request to delete by token.
pub fn delete_by_token(token: String) -> (step: Step)
    ensures
        step@ == delete_token(token@),
{
    ask(Pending::DeleteResolve, Query::SessionIdByToken { token })
}

/// Goes on after the session of the token was looked up.
pub fn after_delete_resolve(reply: Reply) -> (step: Step)
    ensures
        step@ == delete_resolved(reply@),
{
    match find_session_id_by_token(reply) {
        Ok(session_id) => delete_session_files_and_metadata(session_id),
        Err(failure) => fail(failure),
    }
}

/// Goes on after the session was looked up.
pub fn after_delete_lookup(session_id: String, reply: Reply) -> (step: Step)
    ensures
        step@ == delete_looked_up(session_id@, reply@),
{
    match reply {
        Reply::Column(Some(output)) => {
            let query = Query::ChunkFiles { session_id: session_id.clone() };
            ask(Pending::DeleteList { session_id, output }, query)
        },
        Reply::Column(None) => refuse(NOT_FOUND, "session not found"),
        Reply::Failed(message) => break_off(message),
        _ => go_astray(),
    }
}

fn note(fault: Option<String>, reply: Reply) -> (r: Option<String>)
    ensures
        opt_text(r) == noted(opt_text(fault), reply@),
{
    match (fault, reply) {
        (None, Reply::Failed(message)) => Some(message),
        (fault, _) => fault,
    }
}

fn answers_removal(reply: &Reply) -> (r: bool)
    ensures
        r == is_removal_reply(reply@),
{
    match reply {
        Reply::Done | Reply::Missing | Reply::Failed(_) => true,
        _ => false,
    }
}

fn go_on_with_removal(config: &AppConfig, removal: Removal) -> (step: Step)
    ensures
        step@ == next_removal(config@, removal@),
{
    if removal.next < removal.files.len() {
        let path = removal.files[removal.next].clone();
        let taken = Removal {
            session_id: removal.session_id,
            output: removal.output,
            files: removal.files,
            next: removal.next + 1,
            fault: removal.fault,
        };
        let op = DiskOp::RemoveFile { path: path.clone() };
        work(Pending::DeleteFile { removal: taken, path }, op)
    } else {
        let path = session_dir_path(config.data_dir.as_str(), removal.session_id.as_str());
        work(
            Pending::DeleteDir {
                session_id: removal.session_id,
                output: removal.output,
                fault: removal.fault,
            },
            DiskOp::RemoveDirAll { path },
        )
    }
}

/// Goes on after the chunks were listed.
pub fn after_delete_list(
    config: &AppConfig,
    session_id: String,
    output: Option<String>,
    reply: Reply,
) -> (step: Step)
    ensures
        step@ == delete_listed(config@, session_id@, opt_text(output), reply@),
{
    match reply {
        Reply::Paths(files) => go_on_with_removal(
            config,
            Removal { session_id, output, files, next: 0, fault: None },
        ),
        Reply::Failed(message) => break_off(message),
        _ => go_astray(),
    }
}

/// Goes on after the chunk file at `path` was removed, or was not.
pub fn after_delete_file(
    config: &AppConfig,
    removal: Removal,
    path: String,
    reply: Reply,
) -> (step: Step)
    ensures
        step@ == delete_file_removed(config@, removal@, path@, reply@),
{
    if !answers_removal(&reply) {
        return go_astray();
    }
    let dir = session_dir_path(config.data_dir.as_str(), removal.session_id.as_str());
    if is_inside(path.as_str(), dir.as_str()) {
        go_on_with_removal(config, removal)
    } else {
        let fault = note(removal.fault, reply);
        go_on_with_removal(
            config,
            Removal {
                session_id: removal.session_id,
                output: removal.output,
                files: removal.files,
                next: removal.next,
                fault,
            },
        )
    }
}

fn list_outputs(config: &AppConfig, session_id: String, fault: Option<String>) -> (step: Step)
    ensures
        step@ == lists_outputs(config@, session_id@, opt_text(fault)),
{
    let path = final_dir_path(config.data_dir.as_str());
    work(Pending::DeleteOutputList { session_id, fault }, DiskOp::ListDir { path })
}

/// Goes on after the directory was removed, or was not.
pub fn after_delete_dir(
    config: &AppConfig,
    session_id: String,
    output: Option<String>,
    fault: Option<String>,
    reply: Reply,
) -> (step: Step)
    ensures
        step@ == delete_dir_removed(
            config@,
            session_id@,
            opt_text(output),
            opt_text(fault),
            reply@,
        ),
{
    if !answers_removal(&reply) {
        return go_astray();
    }
    let fault = note(fault, reply);
    match output {
        Some(path) => {
            let op = DiskOp::RemoveFile { path: path.clone() };
            work(Pending::DeleteOutput { session_id, path, fault }, op)
        },
        None => list_outputs(config, session_id, fault),
    }
}

/// Goes on after the finalized file at `path` was removed, or was not.
pub fn after_delete_output(
    config: &AppConfig,
    session_id: String,
    path: String,
    fault: Option<String>,
    reply: Reply,
) -> (step: Step)
    ensures
        step@ == delete_output_removed(config@, session_id@, path@, opt_text(fault), reply@),
{
    if !answers_removal(&reply) {
        return go_astray();
    }
    if leads_to_output(config.data_dir.as_str(), session_id.as_str(), path.as_str()) {
        list_outputs(config, session_id, fault)
    } else {
        list_outputs(config, session_id, note(fault, reply))
    }
}

fn entries_of(entries: &Vec<DirEntry>, session_id: &str) -> (own: Vec<DirEntry>)
    ensures
        entry_views(own@) == own_entries(entry_views(entries@), session_id@),
{
    let prefix = joined(session_id, ".");
    let ghost all = entry_views(entries@);
    let mut own: Vec<DirEntry> = Vec::new();
    let mut i: usize = 0;
    proof {
        reveal(Seq::filter);
        assert(entry_views(own@) =~= own_entries(all.take(0), session_id@));
    }
    while i < entries.len()
        invariant
            i <= entries@.len(),
            prefix@ == session_id@ + "."@,
            all == entry_views(entries@),
            entry_views(own@) == own_entries(all.take(i as int), session_id@),
        decreases entries@.len() - i,
    {
        let ghost before = own@;
        proof {
            reveal(Seq::filter);
            assert(all.take(i + 1).drop_last() =~= all.take(i as int));
            assert(all.take(i + 1).last() == entries@[i as int]@);
        }
        if starts_with(entries[i].name.as_str(), prefix.as_str()) {
            own.push(DirEntry { name: entries[i].name.clone(), is_dir: entries[i].is_dir });
            proof {
                assert(entry_views(own@) =~= entry_views(before).push(entries@[i as int]@));
            }
        }
        i = i + 1;
    }
    assert(all.take(i as int) =~= all);
    own
}

fn remove_chunk_rows(session_id: String, fault: Option<String>) -> (step: Step)
    ensures
        step@ == removes_chunk_rows(session_id@, opt_text(fault)),
{
    match fault {
        Some(message) => break_off(message),
        None => {
            let query = Query::DeleteChunks { session_id: session_id.clone() };
            ask(Pending::DeleteChunkRows { session_id }, query)
        },
    }
}

fn go_on_with_leftovers(config: &AppConfig, leftovers: Leftovers) -> (step: Step)
    ensures
        step@ == next_leftover(config@, leftovers@),
{
    if leftovers.next < leftovers.entries.len() {
        let dir = final_dir_path(config.data_dir.as_str());
        let path = join_path(dir.as_str(), leftovers.entries[leftovers.next].name.as_str());
        let op = if leftovers.entries[leftovers.next].is_dir {
            DiskOp::RemoveDirAll { path }
        } else {
            DiskOp::RemoveFile { path }
        };
        let taken = Leftovers {
            session_id: leftovers.session_id,
            entries: leftovers.entries,
            next: leftovers.next + 1,
            fault: leftovers.fault,
        };
        work(Pending::DeleteLeftover { leftovers: taken }, op)
    } else {
        remove_chunk_rows(leftovers.session_id, leftovers.fault)
    }
}

/// Goes on after the finalized files were listed.
pub fn after_delete_output_list(
    config: &AppConfig,
    session_id: String,
    fault: Option<String>,
    reply: Reply,
) -> (step: Step)
    ensures
        step@ == delete_outputs_listed(config@, session_id@, opt_text(fault), reply@),
{
    match reply {
        Reply::Entries(entries) => {
            let own = entries_of(&entries, session_id.as_str());
            go_on_with_leftovers(config, Leftovers { session_id, entries: own, next: 0, fault })
        },
        Reply::Missing => remove_chunk_rows(session_id, fault),
        Reply::Failed(_) => remove_chunk_rows(session_id, note(fault, reply)),
        _ => go_astray(),
    }
}

/// Goes on after an entry among the finalized files was removed, or was not.
pub fn after_delete_leftover(
    config: &AppConfig,
    leftovers: Leftovers,
    reply: Reply,
) -> (step: Step)
    ensures
        step@ == delete_leftover_removed(config@, leftovers@, reply@),
{
    if !answers_removal(&reply) {
        return go_astray();
    }
    let fault = note(leftovers.fault, reply);
    go_on_with_leftovers(
        config,
        Leftovers {
            session_id: leftovers.session_id,
            entries: leftovers.entries,
            next: leftovers.next,
            fault,
        },
    )
}

/// Goes on after the rows of the chunks were removed.
pub fn after_delete_chunk_rows(session_id: String, reply: Reply) -> (step: Step)
    ensures
        step@ == delete_chunk_rows_removed(session_id@, reply@),
{
    match reply {
        Reply::Done => ask(Pending::DeleteSessionRow, Query::DeleteSession { id: session_id }),
        Reply::Failed(message) => break_off(message),
        _ => go_astray(),
    }
}

/// Ends the request after the row of the session was removed.
pub fn after_delete_session_row(reply: Reply) -> (step: Step)
    ensures
        step@ == delete_session_row_removed(reply@),
{
    match reply {
        Reply::Done => answer(Response::Text("deleted".to_owned())),
        Reply::Failed(message) => break_off(message),
        _ => go_astray(),
    }
}

} // verus!
