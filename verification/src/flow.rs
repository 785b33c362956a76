//! The course of a request: a request asks for one effect at a time and goes on with the reply,
//! until it ends with an outcome.
use vstd::prelude::*;

use crate::effect::{
    entry_views, texts, DirEntry, DirEntryView, DiskOp, DiskOpView, Effect, EffectView, Query,
    QueryView,
};
use crate::identity::{IdentityView, SessionIdentity};
use crate::messages::{
    failure, internal_err, outcome_view, Failure, FailureView, FinalizeReq, Outcome, OutcomeView,
    Response, ResponseView, UploadChunkReq, UploadChunkReqView, INTERNAL_SERVER_ERROR,
};
use crate::text::opt_text;

verus! {

/// A chunk that is accepted and not yet written.
#[derive(Debug, PartialEq, Eq)]
pub struct NewChunk {
    pub session_id: String,
    pub idx: u32,
    pub bytes: Vec<u8>,
    pub sha256_hex: String,
    pub file_path: String,
}

/// The model of a [`NewChunk`].
pub struct NewChunkView {
    pub session_id: Seq<char>,
    pub idx: u32,
    pub bytes: Seq<u8>,
    pub sha256_hex: Seq<char>,
    pub file_path: Seq<char>,
}

impl View for NewChunk {
    type V = NewChunkView;

    open spec fn view(&self) -> NewChunkView {
        NewChunkView {
            session_id: self.session_id@,
            idx: self.idx,
            bytes: self.bytes@,
            sha256_hex: self.sha256_hex@,
            file_path: self.file_path@,
        }
    }
}

/// A chunk whose bytes are on their way to the disk, and which the database does not know yet.
#[derive(Debug, PartialEq, Eq)]
pub struct WrittenChunk {
    pub session_id: String,
    pub idx: u32,
    pub byte_len: i64,
    pub sha256_hex: String,
    pub file_path: String,
}

/// The model of a [`WrittenChunk`].
pub struct WrittenChunkView {
    pub session_id: Seq<char>,
    pub idx: u32,
    pub byte_len: i64,
    pub sha256_hex: Seq<char>,
    pub file_path: Seq<char>,
}

impl View for WrittenChunk {
    type V = WrittenChunkView;

    open spec fn view(&self) -> WrittenChunkView {
        WrittenChunkView {
            session_id: self.session_id@,
            idx: self.idx,
            byte_len: self.byte_len,
            sha256_hex: self.sha256_hex@,
            file_path: self.file_path@,
        }
    }
}

/// A recording that is being put together: the files of its chunks, in order, and how many of
/// them have been taken up.
#[derive(Debug, PartialEq, Eq)]
pub struct Assembly {
    pub id: String,
    pub output_path: String,
    pub files: Vec<String>,
    pub next: usize,
}

/// The model of an [`Assembly`].
pub struct AssemblyView {
    pub id: Seq<char>,
    pub output_path: Seq<char>,
    pub files: Seq<Seq<char>>,
    pub next: int,
}

impl View for Assembly {
    type V = AssemblyView;

    open spec fn view(&self) -> AssemblyView {
        AssemblyView {
            id: self.id@,
            output_path: self.output_path@,
            files: texts(self.files@),
            next: self.next as int,
        }
    }
}

/// A recording that is being deleted: its finalized file, if any, the files of its chunks, how
/// many of those have been dealt with, and the first failure that may have left something behind.
#[derive(Debug, PartialEq, Eq)]
pub struct Removal {
    pub session_id: String,
    pub output: Option<String>,
    pub files: Vec<String>,
    pub next: usize,
    pub fault: Option<String>,
}

/// The model of a [`Removal`].
pub struct RemovalView {
    pub session_id: Seq<char>,
    pub output: Option<Seq<char>>,
    pub files: Seq<Seq<char>>,
    pub next: int,
    pub fault: Option<Seq<char>>,
}

impl View for Removal {
    type V = RemovalView;

    open spec fn view(&self) -> RemovalView {
        RemovalView {
            session_id: self.session_id@,
            output: opt_text(self.output),
            files: texts(self.files@),
            next: self.next as int,
            fault: opt_text(self.fault),
        }
    }
}

/// What is left of a recording that is being deleted: those entries among the finalized files that
/// are its own, how many of them have been dealt with, and the first failure that may have left
/// something behind.
#[derive(Debug, PartialEq, Eq)]
pub struct Leftovers {
    pub session_id: String,
    pub entries: Vec<DirEntry>,
    pub next: usize,
    pub fault: Option<String>,
}

/// The model of a [`Leftovers`].
pub struct LeftoversView {
    pub session_id: Seq<char>,
    pub entries: Seq<DirEntryView>,
    pub next: int,
    pub fault: Option<Seq<char>>,
}

impl View for Leftovers {
    type V = LeftoversView;

    open spec fn view(&self) -> LeftoversView {
        LeftoversView {
            session_id: self.session_id@,
            entries: entry_views(self.entries@),
            next: self.next as int,
            fault: opt_text(self.fault),
        }
    }
}

/// Where a request stands while the effect it asked for is carried out.
#[derive(Debug, PartialEq, Eq)]
pub enum Pending {
    /// The session is being added to the database.
    CreateInsert { identity: SessionIdentity },
    /// The directory of the new session is being made.
    CreateDir { identity: SessionIdentity },
    /// A session is being looked up.
    GetLookup,
    /// The session of a token is being looked up, to upload a chunk to it.
    UploadResolve { req: UploadChunkReq },
    /// The chunk is being looked up.
    UploadLookup { session_id: String, idx: u32, bytes: Vec<u8>, sha256_hex: String },
    /// The directory of the chunk is being made.
    UploadDir { chunk: NewChunk },
    /// The file of the chunk is being opened.
    UploadOpen { chunk: NewChunk },
    /// The chunk is being written.
    UploadWrite { written: WrittenChunk },
    /// The chunk is being brought to the disk.
    UploadFlush { written: WrittenChunk },
    /// The chunk is being added to the database.
    UploadRecord { idx: u32, sha256_hex: String },
    /// The session of a token is being looked up, to finalize it.
    FinalizeResolve { request: FinalizeReq },
    /// The directory of the output is being made.
    FinalizeDir { id: String, output_path: String },
    /// The chunks are being listed.
    FinalizeList { id: String, output_path: String },
    /// The output is being opened.
    FinalizeOpen { assembly: Assembly },
    /// The next chunk is being read.
    FinalizeRead { assembly: Assembly },
    /// The next chunk is being appended to the output.
    FinalizeWrite { assembly: Assembly },
    /// The output is being brought to the disk.
    FinalizeFlush { id: String, output_path: String },
    /// The session is being marked as finalized.
    FinalizeMark { id: String },
    /// The token of the session is being looked up.
    FinalizeToken,
    /// The file of a session is being looked up by the session's id.
    DownloadById { id: String },
    /// The file of a session is being looked up by the session's token.
    DownloadByToken,
    /// The file is being read.
    DownloadRead { session_id: String },
    /// The session of a token is being looked up, to delete it.
    DeleteResolve,
    /// The session is being looked up.
    DeleteLookup { session_id: String },
    /// The chunks are being listed.
    DeleteList { session_id: String, output: Option<String> },
    /// The next chunk file is being removed.
    DeleteFile { removal: Removal, path: String },
    /// The directory of the session is being removed.
    DeleteDir { session_id: String, output: Option<String>, fault: Option<String> },
    /// The finalized file is being removed.
    DeleteOutput { session_id: String, path: String, fault: Option<String> },
    /// The finalized files are being listed.
    DeleteOutputList { session_id: String, fault: Option<String> },
    /// The next entry among the finalized files is being removed.
    DeleteLeftover { leftovers: Leftovers },
    /// The chunks are being removed from the database.
    DeleteChunkRows { session_id: String },
    /// The session is being removed from the database.
    DeleteSessionRow,
    /// The recorder page is being read.
    PageRead,
}

/// The model of a [`Pending`].
pub enum PendingView {
    CreateInsert { identity: IdentityView },
    CreateDir { identity: IdentityView },
    GetLookup,
    UploadResolve { req: UploadChunkReqView },
    UploadLookup { session_id: Seq<char>, idx: u32, bytes: Seq<u8>, sha256_hex: Seq<char> },
    UploadDir { chunk: NewChunkView },
    UploadOpen { chunk: NewChunkView },
    UploadWrite { written: WrittenChunkView },
    UploadFlush { written: WrittenChunkView },
    UploadRecord { idx: u32, sha256_hex: Seq<char> },
    FinalizeResolve { extension: Option<Seq<char>> },
    FinalizeDir { id: Seq<char>, output_path: Seq<char> },
    FinalizeList { id: Seq<char>, output_path: Seq<char> },
    FinalizeOpen { assembly: AssemblyView },
    FinalizeRead { assembly: AssemblyView },
    FinalizeWrite { assembly: AssemblyView },
    FinalizeFlush { id: Seq<char>, output_path: Seq<char> },
    FinalizeMark { id: Seq<char> },
    FinalizeToken,
    DownloadById { id: Seq<char> },
    DownloadByToken,
    DownloadRead { session_id: Seq<char> },
    DeleteResolve,
    DeleteLookup { session_id: Seq<char> },
    DeleteList { session_id: Seq<char>, output: Option<Seq<char>> },
    DeleteFile { removal: RemovalView, path: Seq<char> },
    DeleteDir { session_id: Seq<char>, output: Option<Seq<char>>, fault: Option<Seq<char>> },
    DeleteOutput { session_id: Seq<char>, path: Seq<char>, fault: Option<Seq<char>> },
    DeleteOutputList { session_id: Seq<char>, fault: Option<Seq<char>> },
    DeleteLeftover { leftovers: LeftoversView },
    DeleteChunkRows { session_id: Seq<char> },
    DeleteSessionRow,
    PageRead,
}

impl View for Pending {
    type V = PendingView;

    open spec fn view(&self) -> PendingView {
        match self {
            Pending::CreateInsert { identity } => PendingView::CreateInsert {
                identity: identity@,
            },
            Pending::CreateDir { identity } => PendingView::CreateDir { identity: identity@ },
            Pending::GetLookup => PendingView::GetLookup,
            Pending::UploadResolve { req } => PendingView::UploadResolve { req: req@ },
            Pending::UploadLookup { session_id, idx, bytes, sha256_hex } =>
                PendingView::UploadLookup {
                session_id: session_id@,
                idx: *idx,
                bytes: bytes@,
                sha256_hex: sha256_hex@,
            },
            Pending::UploadDir { chunk } => PendingView::UploadDir { chunk: chunk@ },
            Pending::UploadOpen { chunk } => PendingView::UploadOpen { chunk: chunk@ },
            Pending::UploadWrite { written } => PendingView::UploadWrite { written: written@ },
            Pending::UploadFlush { written } => PendingView::UploadFlush { written: written@ },
            Pending::UploadRecord { idx, sha256_hex } => PendingView::UploadRecord {
                idx: *idx,
                sha256_hex: sha256_hex@,
            },
            Pending::FinalizeResolve { request } => PendingView::FinalizeResolve {
                extension: opt_text(request.extension),
            },
            Pending::FinalizeDir { id, output_path } => PendingView::FinalizeDir {
                id: id@,
                output_path: output_path@,
            },
            Pending::FinalizeList { id, output_path } => PendingView::FinalizeList {
                id: id@,
                output_path: output_path@,
            },
            Pending::FinalizeOpen { assembly } => PendingView::FinalizeOpen {
                assembly: assembly@,
            },
            Pending::FinalizeRead { assembly } => PendingView::FinalizeRead {
                assembly: assembly@,
            },
            Pending::FinalizeWrite { assembly } => PendingView::FinalizeWrite {
                assembly: assembly@,
            },
            Pending::FinalizeFlush { id, output_path } => PendingView::FinalizeFlush {
                id: id@,
                output_path: output_path@,
            },
            Pending::FinalizeMark { id } => PendingView::FinalizeMark { id: id@ },
            Pending::FinalizeToken => PendingView::FinalizeToken,
            Pending::DownloadById { id } => PendingView::DownloadById { id: id@ },
            Pending::DownloadByToken => PendingView::DownloadByToken,
            Pending::DownloadRead { session_id } => PendingView::DownloadRead {
                session_id: session_id@,
            },
            Pending::DeleteResolve => PendingView::DeleteResolve,
            Pending::DeleteLookup { session_id } => PendingView::DeleteLookup {
                session_id: session_id@,
            },
            Pending::DeleteList { session_id, output } => PendingView::DeleteList {
                session_id: session_id@,
                output: opt_text(*output),
            },
            Pending::DeleteFile { removal, path } => PendingView::DeleteFile {
                removal: removal@,
                path: path@,
            },
            Pending::DeleteDir { session_id, output, fault } => PendingView::DeleteDir {
                fault: opt_text(*fault),
                session_id: session_id@,
                output: opt_text(*output),
            },
            Pending::DeleteOutput { session_id, path, fault } => PendingView::DeleteOutput {
                path: path@,
                fault: opt_text(*fault),
                session_id: session_id@,
            },
            Pending::DeleteOutputList { session_id, fault } => PendingView::DeleteOutputList {
                fault: opt_text(*fault),
                session_id: session_id@,
            },
            Pending::DeleteLeftover { leftovers } => PendingView::DeleteLeftover {
                leftovers: leftovers@,
            },
            Pending::DeleteChunkRows { session_id } => PendingView::DeleteChunkRows {
                session_id: session_id@,
            },
            Pending::DeleteSessionRow => PendingView::DeleteSessionRow,
            Pending::PageRead => PendingView::PageRead,
        }
    }
}

/// What a request does next.
#[derive(Debug, PartialEq, Eq)]
pub enum Step {
    /// It wants an effect carried out and waits for the reply.
    Run { pending: Pending, effect: Effect },
    /// It ends.
    Finish { outcome: Outcome },
}

/// The model of a [`Step`].
pub enum StepView {
    Run { pending: PendingView, effect: EffectView },
    Finish { outcome: OutcomeView },
}

impl View for Step {
    type V = StepView;

    open spec fn view(&self) -> StepView {
        match self {
            Step::Run { pending, effect } => StepView::Run { pending: pending@, effect: effect@ },
            Step::Finish { outcome } => StepView::Finish { outcome: outcome_view(*outcome) },
        }
    }
}

/// The step that asks the database.
pub open spec fn asks(pending: PendingView, query: QueryView) -> StepView {
    StepView::Run { pending, effect: EffectView::Db(query) }
}

/// The step that works on the disk.
pub open spec fn works(pending: PendingView, op: DiskOpView) -> StepView {
    StepView::Run { pending, effect: EffectView::Disk(op) }
}

/// The step that ends a request with a response.
pub open spec fn answers(response: ResponseView) -> StepView {
    StepView::Finish { outcome: Ok(response) }
}

/// The step that ends a request with a failure that was found out elsewhere.
pub open spec fn fails(failure: FailureView) -> StepView {
    StepView::Finish { outcome: Err(failure) }
}

/// The step that ends a request with a failure.
pub open spec fn refuses(status: u16, message: Seq<char>) -> StepView {
    StepView::Finish { outcome: Err(FailureView { status, message }) }
}

/// The step that ends a request because an effect failed.
pub open spec fn breaks(message: Seq<char>) -> StepView {
    refuses(INTERNAL_SERVER_ERROR, message)
}

/// The step that ends a request because the reply is none that its effect can have.
pub open spec fn astray() -> StepView {
    breaks("unexpected reply"@)
}

/// Asks the database.
pub fn ask(pending: Pending, query: Query) -> (step: Step)
    ensures
        step@ == asks(pending@, query@),
{
    Step::Run { pending, effect: Effect::Db(query) }
}

/// Works on the disk.
pub fn work(pending: Pending, op: DiskOp) -> (step: Step)
    ensures
        step@ == works(pending@, op@),
{
    Step::Run { pending, effect: Effect::Disk(op) }
}

/// Ends a request with a response.
pub fn answer(response: Response) -> (step: Step)
    ensures
        step@ == answers(response@),
{
    Step::Finish { outcome: Ok(response) }
}

/// Ends a request with a failure that was found out elsewhere.
pub fn fail(failure: Failure) -> (step: Step)
    ensures
        step@ == fails(failure@),
{
    Step::Finish { outcome: Err(failure) }
}

/// Ends a request with a failure.
pub fn refuse(status: u16, message: &str) -> (step: Step)
    ensures
        step@ == refuses(status, message@),
{
    Step::Finish { outcome: Err(failure(status, message)) }
}

/// Ends a request because an effect failed.
pub fn break_off(message: String) -> (step: Step)
    ensures
        step@ == breaks(message@),
{
    Step::Finish { outcome: Err(internal_err(message)) }
}

/// Ends a request because the reply is none that its effect can have.
pub fn go_astray() -> (step: Step)
    ensures
        step@ == astray(),
{
    refuse(INTERNAL_SERVER_ERROR, "unexpected reply")
}

} // verus!
