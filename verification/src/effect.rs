//! What the server asks of the database and of the disk, and what it is told.
use vstd::prelude::*;

use crate::messages::{SessionRow, SessionRowView};
use crate::text::{copied, opt_text};

verus! {

/// A statement for the database.
#[derive(Debug, PartialEq, Eq)]
pub enum Query {
    /// Adds a session that is recording.
    InsertSession { id: String, mime_type: Option<String>, secret_token: String },
    /// The row of a session. Answered with [`Reply::Session`].
    SessionById { id: String },
    /// The id of the session with a token. Answered with [`Reply::Value`].
    SessionIdByToken { token: String },
    /// The token of a session. Answered with [`Reply::Column`].
    SecretTokenById { id: String },
    /// The finalized file of a session. Answered with [`Reply::Column`].
    OutputPathById { id: String },
    /// The id and the finalized file of the session with a token. Answered with
    /// [`Reply::Recording`].
    RecordingByToken { token: String },
    /// The digest of a chunk. Answered with [`Reply::Value`].
    ChunkDigest { session_id: String, idx: i64 },
    /// Adds a chunk.
    InsertChunk {
        session_id: String,
        idx: i64,
        byte_len: i64,
        sha256_hex: String,
        file_path: String,
    },
    /// The chunk files of a session by ascending index. Answered with [`Reply::Chunks`].
    ChunksInOrder { session_id: String },
    /// The chunk files of a session in any order. Answered with [`Reply::Paths`].
    ChunkFiles { session_id: String },
    /// Marks a session as finalized.
    FinalizeSession { output_path: String, id: String },
    /// Removes the rows of all chunks of a session.
    DeleteChunks { session_id: String },
    /// Removes the row of a session.
    DeleteSession { id: String },
}

/// The model of a [`Query`].
pub enum QueryView {
    InsertSession { id: Seq<char>, mime_type: Option<Seq<char>>, secret_token: Seq<char> },
    SessionById { id: Seq<char> },
    SessionIdByToken { token: Seq<char> },
    SecretTokenById { id: Seq<char> },
    OutputPathById { id: Seq<char> },
    RecordingByToken { token: Seq<char> },
    ChunkDigest { session_id: Seq<char>, idx: i64 },
    InsertChunk {
        session_id: Seq<char>,
        idx: i64,
        byte_len: i64,
        sha256_hex: Seq<char>,
        file_path: Seq<char>,
    },
    ChunksInOrder { session_id: Seq<char> },
    ChunkFiles { session_id: Seq<char> },
    FinalizeSession { output_path: Seq<char>, id: Seq<char> },
    DeleteChunks { session_id: Seq<char> },
    DeleteSession { id: Seq<char> },
}

impl View for Query {
    type V = QueryView;

    open spec fn view(&self) -> QueryView {
        match self {
            Query::InsertSession { id, mime_type, secret_token } => QueryView::InsertSession {
                id: id@,
                mime_type: opt_text(*mime_type),
                secret_token: secret_token@,
            },
            Query::SessionById { id } => QueryView::SessionById { id: id@ },
            Query::SessionIdByToken { token } => QueryView::SessionIdByToken { token: token@ },
            Query::SecretTokenById { id } => QueryView::SecretTokenById { id: id@ },
            Query::OutputPathById { id } => QueryView::OutputPathById { id: id@ },
            Query::RecordingByToken { token } => QueryView::RecordingByToken { token: token@ },
            Query::ChunkDigest { session_id, idx } => QueryView::ChunkDigest {
                session_id: session_id@,
                idx: *idx,
            },
            Query::InsertChunk { session_id, idx, byte_len, sha256_hex, file_path } =>
                QueryView::InsertChunk {
                session_id: session_id@,
                idx: *idx,
                byte_len: *byte_len,
                sha256_hex: sha256_hex@,
                file_path: file_path@,
            },
            Query::ChunksInOrder { session_id } => QueryView::ChunksInOrder {
                session_id: session_id@,
            },
            Query::ChunkFiles { session_id } => QueryView::ChunkFiles { session_id: session_id@ },
            Query::FinalizeSession { output_path, id } => QueryView::FinalizeSession {
                output_path: output_path@,
                id: id@,
            },
            Query::DeleteChunks { session_id } => QueryView::DeleteChunks {
                session_id: session_id@,
            },
            Query::DeleteSession { id } => QueryView::DeleteSession { id: id@ },
        }
    }
}

/// A value that fills a placeholder of a statement.
#[derive(Debug, PartialEq, Eq)]
pub enum Bind {
    Text(String),
    MaybeText(Option<String>),
    Integer(i64),
}

/// The model of a [`Bind`].
pub enum BindView {
    Text(Seq<char>),
    MaybeText(Option<Seq<char>>),
    Integer(i64),
}

impl View for Bind {
    type V = BindView;

    open spec fn view(&self) -> BindView {
        match self {
            Bind::Text(t) => BindView::Text(t@),
            Bind::MaybeText(t) => BindView::MaybeText(opt_text(*t)),
            Bind::Integer(n) => BindView::Integer(*n),
        }
    }
}

/// The models of a list of binds.
pub open spec fn bind_views(binds: Seq<Bind>) -> Seq<BindView> {
    Seq::new(binds.len(), |i: int| binds[i]@)
}

impl QueryView {
    /// The SQL text of the statement.
    pub open spec fn sql(self) -> Seq<char> {
        match self {
            QueryView::InsertSession { .. } =>
                "INSERT INTO sessions (id, status, mime_type, secret_token) VALUES (?, 'recording', ?, ?)"@,
            QueryView::SessionById { .. } =>
                "SELECT id, status, mime_type, created_at, completed_at, output_path, secret_token FROM sessions WHERE id = ?"@,
            QueryView::SessionIdByToken { .. } =>
                "SELECT id FROM sessions WHERE secret_token = ?"@,
            QueryView::SecretTokenById { .. } =>
                "SELECT secret_token FROM sessions WHERE id = ?"@,
            QueryView::OutputPathById { .. } =>
                "SELECT output_path FROM sessions WHERE id = ?"@,
            QueryView::RecordingByToken { .. } =>
                "SELECT id, output_path FROM sessions WHERE secret_token = ?"@,
            QueryView::ChunkDigest { .. } =>
                "SELECT sha256_hex FROM chunks WHERE session_id = ? AND idx = ?"@,
            QueryView::InsertChunk { .. } =>
                "INSERT INTO chunks (session_id, idx, byte_len, sha256_hex, file_path) VALUES (?, ?, ?, ?, ?)"@,
            QueryView::ChunksInOrder { .. } =>
                "SELECT idx, file_path FROM chunks WHERE session_id = ? ORDER BY idx ASC"@,
            QueryView::ChunkFiles { .. } =>
                "SELECT file_path FROM chunks WHERE session_id = ?"@,
            QueryView::FinalizeSession { .. } =>
                "UPDATE sessions SET status = 'finalized', completed_at = datetime('now'), output_path = ? WHERE id = ?"@,
            QueryView::DeleteChunks { .. } =>
                "DELETE FROM chunks WHERE session_id = ?"@,
            QueryView::DeleteSession { .. } =>
                "DELETE FROM sessions WHERE id = ?"@,
        }
    }

    /// The values of the statement's placeholders, in order.
    pub open spec fn binds(self) -> Seq<BindView> {
        match self {
            QueryView::InsertSession { id, mime_type, secret_token } => seq![
                BindView::Text(id),
                BindView::MaybeText(mime_type),
                BindView::Text(secret_token),
            ],
            QueryView::SessionById { id } => seq![BindView::Text(id)],
            QueryView::SessionIdByToken { token } => seq![BindView::Text(token)],
            QueryView::SecretTokenById { id } => seq![BindView::Text(id)],
            QueryView::OutputPathById { id } => seq![BindView::Text(id)],
            QueryView::RecordingByToken { token } => seq![BindView::Text(token)],
            QueryView::ChunkDigest { session_id, idx } => seq![
                BindView::Text(session_id),
                BindView::Integer(idx),
            ],
            QueryView::InsertChunk { session_id, idx, byte_len, sha256_hex, file_path } => seq![
                BindView::Text(session_id),
                BindView::Integer(idx),
                BindView::Integer(byte_len),
                BindView::Text(sha256_hex),
                BindView::Text(file_path),
            ],
            QueryView::ChunksInOrder { session_id } => seq![BindView::Text(session_id)],
            QueryView::ChunkFiles { session_id } => seq![BindView::Text(session_id)],
            QueryView::FinalizeSession { output_path, id } => seq![
                BindView::Text(output_path),
                BindView::Text(id),
            ],
            QueryView::DeleteChunks { session_id } => seq![BindView::Text(session_id)],
            QueryView::DeleteSession { id } => seq![BindView::Text(id)],
        }
    }
}

impl Query {
    /// The SQL text of the statement, with a placeholder for each value that it takes.
    pub fn sql(&self) -> (text: &'static str)
        ensures
            text@ == self@.sql(),
    {
        match self {
            Query::InsertSession { .. } =>
                "INSERT INTO sessions (id, status, mime_type, secret_token) VALUES (?, 'recording', ?, ?)",
            Query::SessionById { .. } =>
                "SELECT id, status, mime_type, created_at, completed_at, output_path, secret_token FROM sessions WHERE id = ?",
            Query::SessionIdByToken { .. } =>
                "SELECT id FROM sessions WHERE secret_token = ?",
            Query::SecretTokenById { .. } =>
                "SELECT secret_token FROM sessions WHERE id = ?",
            Query::OutputPathById { .. } =>
                "SELECT output_path FROM sessions WHERE id = ?",
            Query::RecordingByToken { .. } =>
                "SELECT id, output_path FROM sessions WHERE secret_token = ?",
            Query::ChunkDigest { .. } =>
                "SELECT sha256_hex FROM chunks WHERE session_id = ? AND idx = ?",
            Query::InsertChunk { .. } =>
                "INSERT INTO chunks (session_id, idx, byte_len, sha256_hex, file_path) VALUES (?, ?, ?, ?, ?)",
            Query::ChunksInOrder { .. } =>
                "SELECT idx, file_path FROM chunks WHERE session_id = ? ORDER BY idx ASC",
            Query::ChunkFiles { .. } =>
                "SELECT file_path FROM chunks WHERE session_id = ?",
            Query::FinalizeSession { .. } =>
                "UPDATE sessions SET status = 'finalized', completed_at = datetime('now'), output_path = ? WHERE id = ?",
            Query::DeleteChunks { .. } =>
                "DELETE FROM chunks WHERE session_id = ?",
            Query::DeleteSession { .. } =>
                "DELETE FROM sessions WHERE id = ?",
        }
    }

    /// The values of the statement's placeholders, in order.
    pub fn binds(&self) -> (binds: Vec<Bind>)
        ensures
            bind_views(binds@) == self@.binds(),
    {
        let mut binds: Vec<Bind> = Vec::new();
        match self {
            Query::InsertSession { id, mime_type, secret_token } => {
                binds.push(Bind::Text(id.clone()));
                binds.push(Bind::MaybeText(copied(mime_type)));
                binds.push(Bind::Text(secret_token.clone()));
            },
            Query::SessionById { id } => {
                binds.push(Bind::Text(id.clone()));
            },
            Query::SessionIdByToken { token } => {
                binds.push(Bind::Text(token.clone()));
            },
            Query::SecretTokenById { id } => {
                binds.push(Bind::Text(id.clone()));
            },
            Query::OutputPathById { id } => {
                binds.push(Bind::Text(id.clone()));
            },
            Query::RecordingByToken { token } => {
                binds.push(Bind::Text(token.clone()));
            },
            Query::ChunkDigest { session_id, idx } => {
                binds.push(Bind::Text(session_id.clone()));
                binds.push(Bind::Integer(*idx));
            },
            Query::InsertChunk { session_id, idx, byte_len, sha256_hex, file_path } => {
                binds.push(Bind::Text(session_id.clone()));
                binds.push(Bind::Integer(*idx));
                binds.push(Bind::Integer(*byte_len));
                binds.push(Bind::Text(sha256_hex.clone()));
                binds.push(Bind::Text(file_path.clone()));
            },
            Query::ChunksInOrder { session_id } => {
                binds.push(Bind::Text(session_id.clone()));
            },
            Query::ChunkFiles { session_id } => {
                binds.push(Bind::Text(session_id.clone()));
            },
            Query::FinalizeSession { output_path, id } => {
                binds.push(Bind::Text(output_path.clone()));
                binds.push(Bind::Text(id.clone()));
            },
            Query::DeleteChunks { session_id } => {
                binds.push(Bind::Text(session_id.clone()));
            },
            Query::DeleteSession { id } => {
                binds.push(Bind::Text(id.clone()));
            },
        }
        assert(bind_views(binds@) =~= self@.binds());
        binds
    }
}

/// Work on the disk. At most one file is open for writing at a time.
#[derive(Debug, PartialEq, Eq)]
pub enum DiskOp {
    /// Makes a directory and all those above it.
    CreateDirAll { path: String },
    /// Opens a file for writing, empty.
    OpenOutput { path: String },
    /// Appends to the open file.
    WriteOutput { bytes: Vec<u8> },
    /// Brings all that was written to the open file to the disk, and closes the file.
    FlushOutput,
    /// Reads a whole file. Answered with [`Reply::Bytes`].
    ReadFile { path: String },
    /// Reads a whole file as text. Answered with [`Reply::Page`].
    ReadText { path: String },
    /// The entries of a directory. Answered with [`Reply::Entries`], or with [`Reply::Missing`].
    ListDir { path: String },
    /// Removes a file. Answered with [`Reply::Missing`] where there is none.
    RemoveFile { path: String },
    /// Removes a directory and all that is in it. Answered with [`Reply::Missing`] where there is
    /// none.
    RemoveDirAll { path: String },
}

/// The model of a [`DiskOp`].
pub enum DiskOpView {
    CreateDirAll { path: Seq<char> },
    OpenOutput { path: Seq<char> },
    WriteOutput { bytes: Seq<u8> },
    FlushOutput,
    ReadFile { path: Seq<char> },
    ReadText { path: Seq<char> },
    ListDir { path: Seq<char> },
    RemoveFile { path: Seq<char> },
    RemoveDirAll { path: Seq<char> },
}

impl View for DiskOp {
    type V = DiskOpView;

    open spec fn view(&self) -> DiskOpView {
        match self {
            DiskOp::CreateDirAll { path } => DiskOpView::CreateDirAll { path: path@ },
            DiskOp::OpenOutput { path } => DiskOpView::OpenOutput { path: path@ },
            DiskOp::WriteOutput { bytes } => DiskOpView::WriteOutput { bytes: bytes@ },
            DiskOp::FlushOutput => DiskOpView::FlushOutput,
            DiskOp::ReadFile { path } => DiskOpView::ReadFile { path: path@ },
            DiskOp::ReadText { path } => DiskOpView::ReadText { path: path@ },
            DiskOp::ListDir { path } => DiskOpView::ListDir { path: path@ },
            DiskOp::RemoveFile { path } => DiskOpView::RemoveFile { path: path@ },
            DiskOp::RemoveDirAll { path } => DiskOpView::RemoveDirAll { path: path@ },
        }
    }
}

/// One thing that the server wants done.
#[derive(Debug, PartialEq, Eq)]
pub enum Effect {
    Db(Query),
    Disk(DiskOp),
}

/// The model of an [`Effect`].
pub enum EffectView {
    Db(QueryView),
    Disk(DiskOpView),
}

impl View for Effect {
    type V = EffectView;

    open spec fn view(&self) -> EffectView {
        match self {
            Effect::Db(query) => EffectView::Db(query@),
            Effect::Disk(op) => EffectView::Disk(op@),
        }
    }
}

/// A chunk as the database lists it.
#[derive(Debug, PartialEq, Eq)]
pub struct ListedChunk {
    pub idx: i64,
    pub file_path: String,
}

/// The model of a [`ListedChunk`].
pub struct ListedChunkView {
    pub idx: i64,
    pub file_path: Seq<char>,
}

impl View for ListedChunk {
    type V = ListedChunkView;

    open spec fn view(&self) -> ListedChunkView {
        ListedChunkView { idx: self.idx, file_path: self.file_path@ }
    }
}

/// The models of a list of chunks.
pub open spec fn listed(chunks: Seq<ListedChunk>) -> Seq<ListedChunkView> {
    Seq::new(chunks.len(), |i: int| chunks[i]@)
}

/// The models of a list of texts.
pub open spec fn texts(list: Seq<String>) -> Seq<Seq<char>> {
    Seq::new(list.len(), |i: int| list[i]@)
}

/// An entry of a directory.
#[derive(Debug, PartialEq, Eq)]
pub struct DirEntry {
    pub name: String,
    pub is_dir: bool,
}

/// The model of a [`DirEntry`].
pub struct DirEntryView {
    pub name: Seq<char>,
    pub is_dir: bool,
}

impl View for DirEntry {
    type V = DirEntryView;

    open spec fn view(&self) -> DirEntryView {
        DirEntryView { name: self.name@, is_dir: self.is_dir }
    }
}

/// The models of a list of entries.
pub open spec fn entry_views(entries: Seq<DirEntry>) -> Seq<DirEntryView> {
    Seq::new(entries.len(), |i: int| entries[i]@)
}

/// The id of a session and, where it is finalized, its file.
#[derive(Debug, PartialEq, Eq)]
pub struct Recording {
    pub session_id: String,
    pub output_path: Option<String>,
}

/// The model of a [`Recording`].
pub struct RecordingView {
    pub session_id: Seq<char>,
    pub output_path: Option<Seq<char>>,
}

impl View for Recording {
    type V = RecordingView;

    open spec fn view(&self) -> RecordingView {
        RecordingView {
            session_id: self.session_id@,
            output_path: opt_text(self.output_path),
        }
    }
}

/// What came of an [`Effect`].
#[derive(Debug, PartialEq, Eq)]
pub enum Reply {
    /// It was done.
    Done,
    /// It failed, with this to say.
    Failed(String),
    /// There is nothing at the path.
    Missing,
    /// The row that was asked for, if there is one.
    Session(Option<SessionRow>),
    /// The value in the row that was asked for, if there is one.
    Value(Option<String>),
    /// The value, which may be missing, in the row that was asked for, if there is one.
    Column(Option<Option<String>>),
    /// The recording that was asked for, if there is one.
    Recording(Option<Recording>),
    /// Chunks by ascending index.
    Chunks(Vec<ListedChunk>),
    /// Paths of files.
    Paths(Vec<String>),
    /// The entries of a directory.
    Entries(Vec<DirEntry>),
    /// The contents of a file.
    Bytes(Vec<u8>),
    /// The contents of a file of text.
    Page(String),
}

/// The model of a [`Reply`].
pub enum ReplyView {
    Done,
    Failed(Seq<char>),
    Missing,
    Session(Option<SessionRowView>),
    Value(Option<Seq<char>>),
    Column(Option<Option<Seq<char>>>),
    Recording(Option<RecordingView>),
    Chunks(Seq<ListedChunkView>),
    Paths(Seq<Seq<char>>),
    Entries(Seq<DirEntryView>),
    Bytes(Seq<u8>),
    Page(Seq<char>),
}

impl View for Reply {
    type V = ReplyView;

    open spec fn view(&self) -> ReplyView {
        match self {
            Reply::Done => ReplyView::Done,
            Reply::Failed(message) => ReplyView::Failed(message@),
            Reply::Missing => ReplyView::Missing,
            Reply::Session(row) => ReplyView::Session(
                match row {
                    Some(row) => Some(row@),
                    None => None,
                },
            ),
            Reply::Value(value) => ReplyView::Value(opt_text(*value)),
            Reply::Column(column) => ReplyView::Column(
                match column {
                    Some(value) => Some(opt_text(*value)),
                    None => None,
                },
            ),
            Reply::Recording(recording) => ReplyView::Recording(
                match recording {
                    Some(recording) => Some(recording@),
                    None => None,
                },
            ),
            Reply::Chunks(chunks) => ReplyView::Chunks(listed(chunks@)),
            Reply::Paths(paths) => ReplyView::Paths(texts(paths@)),
            Reply::Entries(entries) => ReplyView::Entries(entry_views(entries@)),
            Reply::Bytes(bytes) => ReplyView::Bytes(bytes@),
            Reply::Page(page) => ReplyView::Page(page@),
        }
    }
}

} // verus!
