//! What clients send and what they are answered.
use vstd::prelude::*;

use crate::text::opt_text;

verus! {

/// The body of a request for a new session.
#[derive(Debug, PartialEq, Eq)]
pub struct CreateSessionReq {
    pub mime_type: Option<String>,
}

/// The links of a new session.
#[derive(Debug, PartialEq, Eq)]
pub struct CreateSessionResp {
    pub session_id: String,
    pub secret_path: String,
    pub upload_base: String,
    pub file_path: String,
    pub delete_path: String,
}

/// The model of a [`CreateSessionResp`].
pub struct CreateSessionRespView {
    pub session_id: Seq<char>,
    pub secret_path: Seq<char>,
    pub upload_base: Seq<char>,
    pub file_path: Seq<char>,
    pub delete_path: Seq<char>,
}

impl View for CreateSessionResp {
    type V = CreateSessionRespView;

    open spec fn view(&self) -> CreateSessionRespView {
        CreateSessionRespView {
            session_id: self.session_id@,
            secret_path: self.secret_path@,
            upload_base: self.upload_base@,
            file_path: self.file_path@,
            delete_path: self.delete_path@,
        }
    }
}

/// The body of a chunk upload: the chunk's index and its bytes in base64.
#[derive(Debug, PartialEq, Eq)]
pub struct UploadChunkReq {
    pub idx: u32,
    pub data_b64: String,
}

/// The model of an [`UploadChunkReq`].
pub struct UploadChunkReqView {
    pub idx: u32,
    pub data_b64: Seq<char>,
}

impl View for UploadChunkReq {
    type V = UploadChunkReqView;

    open spec fn view(&self) -> UploadChunkReqView {
        UploadChunkReqView { idx: self.idx, data_b64: self.data_b64@ }
    }
}

/// The answer to a chunk upload. Where the chunk was already present, the digest is that of the
/// chunk that is kept.
#[derive(Debug, PartialEq, Eq)]
pub struct UploadChunkResp {
    pub ok: bool,
    pub idx: u32,
    pub already_present: bool,
    pub sha256_hex: String,
}

/// The model of an [`UploadChunkResp`].
pub struct UploadChunkRespView {
    pub ok: bool,
    pub idx: u32,
    pub already_present: bool,
    pub sha256_hex: Seq<char>,
}

impl View for UploadChunkResp {
    type V = UploadChunkRespView;

    open spec fn view(&self) -> UploadChunkRespView {
        UploadChunkRespView {
            ok: self.ok,
            idx: self.idx,
            already_present: self.already_present,
            sha256_hex: self.sha256_hex@,
        }
    }
}

/// A row of the table of sessions.
#[derive(Debug, PartialEq, Eq)]
pub struct SessionRow {
    pub id: String,
    pub status: String,
    pub mime_type: Option<String>,
    pub created_at: String,
    pub completed_at: Option<String>,
    pub output_path: Option<String>,
    pub secret_token: Option<String>,
}

/// The model of a [`SessionRow`].
pub struct SessionRowView {
    pub id: Seq<char>,
    pub status: Seq<char>,
    pub mime_type: Option<Seq<char>>,
    pub created_at: Seq<char>,
    pub completed_at: Option<Seq<char>>,
    pub output_path: Option<Seq<char>>,
    pub secret_token: Option<Seq<char>>,
}

impl View for SessionRow {
    type V = SessionRowView;

    open spec fn view(&self) -> SessionRowView {
        SessionRowView {
            id: self.id@,
            status: self.status@,
            mime_type: opt_text(self.mime_type),
            created_at: self.created_at@,
            completed_at: opt_text(self.completed_at),
            output_path: opt_text(self.output_path),
            secret_token: opt_text(self.secret_token),
        }
    }
}

/// The body of a request to finalize a recording.
#[derive(Debug, PartialEq, Eq)]
pub struct FinalizeReq {
    pub extension: Option<String>,
}

/// A file to be played: two headers and the bytes.
#[derive(Debug, PartialEq, Eq)]
pub struct AudioFile {
    pub content_type: String,
    pub content_disposition: String,
    pub data: Vec<u8>,
}

/// The model of an [`AudioFile`].
pub struct AudioFileView {
    pub content_type: Seq<char>,
    pub content_disposition: Seq<char>,
    pub data: Seq<u8>,
}

impl View for AudioFile {
    type V = AudioFileView;

    open spec fn view(&self) -> AudioFileView {
        AudioFileView {
            content_type: self.content_type@,
            content_disposition: self.content_disposition@,
            data: self.data@,
        }
    }
}

/// A request that was carried out is answered with status 200 and one of these.
#[derive(Debug, PartialEq, Eq)]
pub enum Response {
    /// The links of a new session.
    Created(CreateSessionResp),
    /// What is known of a session.
    Session(SessionRow),
    /// What became of a chunk.
    Chunk(UploadChunkResp),
    /// A line of text.
    Text(String),
    /// A recording.
    Audio(AudioFile),
    /// A web page.
    Page(String),
}

/// The model of a [`Response`].
pub enum ResponseView {
    Created(CreateSessionRespView),
    Session(SessionRowView),
    Chunk(UploadChunkRespView),
    Text(Seq<char>),
    Audio(AudioFileView),
    Page(Seq<char>),
}

impl View for Response {
    type V = ResponseView;

    open spec fn view(&self) -> ResponseView {
        match self {
            Response::Created(links) => ResponseView::Created(links@),
            Response::Session(row) => ResponseView::Session(row@),
            Response::Chunk(chunk) => ResponseView::Chunk(chunk@),
            Response::Text(text) => ResponseView::Text(text@),
            Response::Audio(audio) => ResponseView::Audio(audio@),
            Response::Page(page) => ResponseView::Page(page@),
        }
    }
}

/// A request that was not carried out: an HTTP status and a message.
#[derive(Debug, PartialEq, Eq)]
pub struct Failure {
    pub status: u16,
    pub message: String,
}

/// The model of a [`Failure`].
pub struct FailureView {
    pub status: u16,
    pub message: Seq<char>,
}

impl View for Failure {
    type V = FailureView;

    open spec fn view(&self) -> FailureView {
        FailureView { status: self.status, message: self.message@ }
    }
}

/// The request cannot be understood.
pub const BAD_REQUEST: u16 = 400;

/// What the request names does not exist.
pub const NOT_FOUND: u16 = 404;

/// The chunk is over the limit.
pub const PAYLOAD_TOO_LARGE: u16 = 413;

/// Something the server relies on failed.
pub const INTERNAL_SERVER_ERROR: u16 = 500;

/// How a request ends.
pub type Outcome = Result<Response, Failure>;

/// The model of an [`Outcome`].
pub type OutcomeView = Result<ResponseView, FailureView>;

/// The model of `outcome`.
pub open spec fn outcome_view(outcome: Outcome) -> OutcomeView {
    match outcome {
        Ok(response) => Ok(response@),
        Err(failure) => Err(failure@),
    }
}

/// The failure with the given status and message.
pub fn failure(status: u16, message: &str) -> (r: Failure)
    ensures
        r@ == (FailureView { status, message: message@ }),
{
    Failure { status, message: message.to_owned() }
}

/// The failure of something the server relies on, answered with what it said.
pub fn internal_err(message: String) -> (r: Failure)
    ensures
        r@ == (FailureView { status: INTERNAL_SERVER_ERROR, message: message@ }),
{
    Failure { status: INTERNAL_SERVER_ERROR, message }
}

} // verus!
