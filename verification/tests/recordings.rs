use std::collections::BTreeMap;

use recorder_server::config::AppConfig;
use recorder_server::delete::{delete_by_token, delete_session_by_id};
use recorder_server::download::{
    build_audio_response, download_file_by_token, download_file_legacy,
};
use recorder_server::effect::{
    Bind, DirEntry, DiskOp, Effect, ListedChunk, Query, Recording, Reply,
};
use recorder_server::finalize::{finalize_by_token, finalize_session};
use recorder_server::flow::{Pending, Step};
use recorder_server::identity::SessionIdentity;
use recorder_server::lookup::{find_secret_token_by_session_id, find_session_id_by_token};
use recorder_server::messages::{
    internal_err, CreateSessionReq, CreateSessionResp, Failure, FinalizeReq, Outcome, Response,
    SessionRow, UploadChunkReq, UploadChunkResp,
};
use recorder_server::server::resume;
use recorder_server::session::{
    create_session, create_session_as, get_session, secret_recorder_page,
};
use recorder_server::upload::{upload_chunk, upload_chunk_by_token, upload_decoded};

struct Chunk {
    byte_len: i64,
    sha256_hex: String,
    file_path: String,
}

struct Row {
    status: String,
    mime_type: Option<String>,
    completed_at: Option<String>,
    output_path: Option<String>,
    secret_token: Option<String>,
}

/// A database and a disk in memory. The effect with the number `fail_at` fails.
struct Memory {
    config: AppConfig,
    sessions: BTreeMap<String, Row>,
    chunks: BTreeMap<(String, i64), Chunk>,
    files: BTreeMap<String, Vec<u8>>,
    open: Option<String>,
    effects: usize,
    fail_at: Option<usize>,
}

fn memory() -> Memory {
    let config = AppConfig {
        data_dir: "/data".to_string(),
        db_path: "/data/app.db".to_string(),
        max_chunk_bytes: 16,
        web_dir: "/web".to_string(),
    };
    Memory {
        config,
        sessions: BTreeMap::new(),
        chunks: BTreeMap::new(),
        files: BTreeMap::new(),
        open: None,
        effects: 0,
        fail_at: None,
    }
}

impl Memory {
    fn session_with(&self, token: &str) -> Option<String> {
        for (id, row) in &self.sessions {
            if row.secret_token.as_deref() == Some(token) {
                return Some(id.clone());
            }
        }
        None
    }

    fn ask(&mut self, query: Query) -> Reply {
        match query {
            Query::InsertSession { id, mime_type, secret_token } => {
                let row = Row {
                    status: "recording".to_string(),
                    mime_type,
                    completed_at: None,
                    output_path: None,
                    secret_token: Some(secret_token),
                };
                self.sessions.insert(id, row);
                Reply::Done
            }
            Query::SessionById { id } => Reply::Session(self.sessions.get(&id).map(|row| SessionRow {
                id: id.clone(),
                status: row.status.clone(),
                mime_type: row.mime_type.clone(),
                created_at: "then".to_string(),
                completed_at: row.completed_at.clone(),
                output_path: row.output_path.clone(),
                secret_token: row.secret_token.clone(),
            })),
            Query::SessionIdByToken { token } => Reply::Value(self.session_with(&token)),
            Query::SecretTokenById { id } => {
                Reply::Column(self.sessions.get(&id).map(|row| row.secret_token.clone()))
            }
            Query::OutputPathById { id } => {
                Reply::Column(self.sessions.get(&id).map(|row| row.output_path.clone()))
            }
            Query::RecordingByToken { token } => {
                Reply::Recording(self.session_with(&token).map(|id| Recording {
                    output_path: self.sessions[&id].output_path.clone(),
                    session_id: id,
                }))
            }
            Query::ChunkDigest { session_id, idx } => {
                Reply::Value(self.chunks.get(&(session_id, idx)).map(|c| c.sha256_hex.clone()))
            }
            Query::InsertChunk { session_id, idx, byte_len, sha256_hex, file_path } => {
                self.chunks.insert((session_id, idx), Chunk { byte_len, sha256_hex, file_path });
                Reply::Done
            }
            Query::ChunksInOrder { session_id } => {
                let mut list: Vec<ListedChunk> = Vec::new();
                for ((id, idx), chunk) in &self.chunks {
                    if *id == session_id {
                        list.push(ListedChunk { idx: *idx, file_path: chunk.file_path.clone() });
                    }
                }
                Reply::Chunks(list)
            }
            Query::ChunkFiles { session_id } => {
                let mut list: Vec<String> = Vec::new();
                for ((id, _), chunk) in &self.chunks {
                    if *id == session_id {
                        list.push(chunk.file_path.clone());
                    }
                }
                Reply::Paths(list)
            }
            Query::FinalizeSession { output_path, id } => {
                if let Some(row) = self.sessions.get_mut(&id) {
                    row.status = "finalized".to_string();
                    row.completed_at = Some("now".to_string());
                    row.output_path = Some(output_path);
                }
                Reply::Done
            }
            Query::DeleteChunks { session_id } => {
                self.chunks.retain(|key, _| key.0 != session_id);
                Reply::Done
            }
            Query::DeleteSession { id } => {
                self.sessions.remove(&id);
                Reply::Done
            }
        }
    }

    fn work(&mut self, op: DiskOp) -> Reply {
        let missing = || Reply::Failed("No such file or directory (os error 2)".to_string());
        match op {
            DiskOp::CreateDirAll { .. } => Reply::Done,
            DiskOp::OpenOutput { path } => {
                self.files.insert(path.clone(), Vec::new());
                self.open = Some(path);
                Reply::Done
            }
            DiskOp::WriteOutput { bytes } => {
                let path = self.open.clone().unwrap();
                self.files.get_mut(&path).unwrap().extend(bytes);
                Reply::Done
            }
            DiskOp::FlushOutput => {
                assert!(self.open.is_some());
                self.open = None;
                Reply::Done
            }
            DiskOp::ReadFile { path } => match self.files.get(&path) {
                Some(bytes) => Reply::Bytes(bytes.clone()),
                None => missing(),
            },
            DiskOp::ReadText { path } => match self.files.get(&path) {
                Some(bytes) => Reply::Page(String::from_utf8(bytes.clone()).unwrap()),
                None => missing(),
            },
            DiskOp::ListDir { path } => {
                let inside = format!("{path}/");
                let mut entries: Vec<DirEntry> = Vec::new();
                for file in self.files.keys() {
                    if let Some(rest) = file.strip_prefix(&inside) {
                        let name = rest.split('/').next().unwrap().to_string();
                        let entry = DirEntry { is_dir: rest.contains('/'), name };
                        if !entries.contains(&entry) {
                            entries.push(entry);
                        }
                    }
                }
                if entries.is_empty() {
                    return Reply::Missing;
                }
                Reply::Entries(entries)
            }
            DiskOp::RemoveFile { path } => match self.files.remove(&path) {
                Some(_) => Reply::Done,
                None => Reply::Missing,
            },
            DiskOp::RemoveDirAll { path } => {
                let inside = format!("{path}/");
                let before = self.files.len();
                self.files.retain(|file, _| !file.starts_with(&inside));
                if self.files.len() == before {
                    return Reply::Missing;
                }
                Reply::Done
            }
        }
    }

    fn run(&mut self, first: Step) -> Outcome {
        let mut step = first;
        self.effects = 0;
        loop {
            match step {
                Step::Finish { outcome } => {
                    self.fail_at = None;
                    return outcome;
                }
                Step::Run { pending, effect } => {
                    let reply = if self.fail_at == Some(self.effects) {
                        Reply::Failed("disk I/O error".to_string())
                    } else {
                        match effect {
                            Effect::Db(query) => self.ask(query),
                            Effect::Disk(op) => self.work(op),
                        }
                    };
                    self.effects += 1;
                    step = resume(&self.config, pending, reply);
                }
            }
        }
    }

    fn open_session(&mut self, id: &str, token: &str) {
        let identity =
            SessionIdentity { session_id: id.to_string(), secret_token: token.to_string() };
        let req = CreateSessionReq { mime_type: Some("audio/webm".to_string()) };
        self.run(create_session_as(identity, req)).unwrap();
    }

    fn send(&mut self, token: &str, idx: u32, data_b64: &str) -> Outcome {
        let req = UploadChunkReq { idx, data_b64: data_b64.to_string() };
        self.run(upload_chunk_by_token(token.to_string(), req))
    }

    fn finalize(&mut self, token: &str) -> Outcome {
        self.run(finalize_by_token(token.to_string(), FinalizeReq { extension: None }))
    }

    fn finalize_as(&mut self, token: &str, extension: &str) -> Outcome {
        let req = FinalizeReq { extension: Some(extension.to_string()) };
        self.run(finalize_by_token(token.to_string(), req))
    }

    fn play(&mut self, token: &str) -> Outcome {
        self.run(download_file_by_token(token.to_string()))
    }
}

fn refused(status: u16, message: &str) -> Outcome {
    Err(Failure { status, message: message.to_string() })
}

fn text(line: &str) -> Outcome {
    Ok(Response::Text(line.to_string()))
}

fn chunk(idx: u32, already_present: bool, sha256_hex: &str) -> Outcome {
    let sha256_hex = sha256_hex.to_string();
    Ok(Response::Chunk(UploadChunkResp { ok: true, idx, already_present, sha256_hex }))
}

fn played(outcome: Outcome) -> Vec<u8> {
    match outcome {
        Ok(Response::Audio(file)) => file.data,
        other => panic!("{other:?}"),
    }
}

const HELLO: &str = "2cf24dba5fb0a30e26e83b2ac5b9e29e1b161e5c1fa7425e73043362938b9824";
const ABC: &str = "ba7816bf8f01cfea414140de5dae2223b00361a396177a9cb410ff61f20015ad";

#[test]
fn session_is_created_with_its_links() {
    let mut memory = memory();
    let identity = SessionIdentity { session_id: "s1".to_string(), secret_token: "t1".to_string() };
    let req = CreateSessionReq { mime_type: None };
    let outcome = memory.run(create_session_as(identity, req));
    let expected = CreateSessionResp {
        session_id: "s1".to_string(),
        secret_path: "/r/t1/".to_string(),
        upload_base: "/api/r/t1".to_string(),
        file_path: "/r/t1/file".to_string(),
        delete_path: "/api/r/t1".to_string(),
    };
    assert_eq!(outcome, Ok(Response::Created(expected)));
    assert_eq!(memory.sessions["s1"].status, "recording");
    assert_eq!(memory.sessions["s1"].secret_token.as_deref(), Some("t1"));
}

#[test]
fn created_session_has_a_long_token() {
    let mut memory = memory();
    let req = CreateSessionReq { mime_type: Some("audio/ogg".to_string()) };
    match memory.run(create_session(req)) {
        Ok(Response::Created(links)) => {
            let row = &memory.sessions[&links.session_id];
            let token = row.secret_token.clone().unwrap();
            assert_eq!(token.len(), 64);
            assert_eq!(row.mime_type.as_deref(), Some("audio/ogg"));
            assert_eq!(links.secret_path, format!("/r/{token}/"));
            assert_eq!(links.file_path, format!("/r/{token}/file"));
        }
        other => panic!("{other:?}"),
    }
}

#[test]
fn first_effects_of_a_new_session() {
    let identity = SessionIdentity { session_id: "s1".to_string(), secret_token: "t1".to_string() };
    let step = create_session_as(identity, CreateSessionReq { mime_type: None });
    let (pending, query) = match step {
        Step::Run { pending, effect: Effect::Db(query) } => (pending, query),
        other => panic!("{other:?}"),
    };
    assert_eq!(
        query.sql(),
        "INSERT INTO sessions (id, status, mime_type, secret_token) VALUES (?, 'recording', ?, ?)"
    );
    assert_eq!(
        query.binds(),
        vec![Bind::Text("s1".to_string()), Bind::MaybeText(None), Bind::Text("t1".to_string())]
    );
    let step = resume(&memory().config, pending, Reply::Done);
    match step {
        Step::Run { effect: Effect::Disk(op), .. } => {
            assert_eq!(op, DiskOp::CreateDirAll { path: "/data/chunks/s1".to_string() });
        }
        other => panic!("{other:?}"),
    }
}

#[test]
fn session_is_not_created_when_an_effect_fails() {
    for fail_at in 0..2 {
        let mut memory = memory();
        memory.fail_at = Some(fail_at);
        let identity =
            SessionIdentity { session_id: "s1".to_string(), secret_token: "t1".to_string() };
        let outcome = memory.run(create_session_as(identity, CreateSessionReq { mime_type: None }));
        assert_eq!(outcome, refused(500, "disk I/O error"));
        assert_eq!(memory.sessions.len(), fail_at);
    }
}

#[test]
fn session_is_shown() {
    let mut memory = memory();
    memory.open_session("s1", "t1");
    match memory.run(get_session("s1".to_string())) {
        Ok(Response::Session(row)) => {
            assert_eq!(row.id, "s1");
            assert_eq!(row.status, "recording");
            assert_eq!(row.mime_type.as_deref(), Some("audio/webm"));
            assert_eq!(row.output_path, None);
        }
        other => panic!("{other:?}"),
    }
    assert_eq!(memory.run(get_session("s2".to_string())), refused(404, "session not found"));
}

#[test]
fn chunk_is_stored_under_its_digest() {
    let mut memory = memory();
    memory.open_session("s1", "t1");
    assert_eq!(memory.send("t1", 3, "aGVsbG8="), chunk(3, false, HELLO));
    assert_eq!(memory.files["/data/chunks/s1/00000003.chunk"], b"hello");
    let row = &memory.chunks[&("s1".to_string(), 3)];
    assert_eq!(row.byte_len, 5);
    assert_eq!(row.sha256_hex, HELLO);
    assert_eq!(row.file_path, "/data/chunks/s1/00000003.chunk");
}

#[test]
fn second_upload_of_a_chunk_changes_nothing() {
    let mut memory = memory();
    memory.open_session("s1", "t1");
    assert_eq!(memory.send("t1", 0, "aGVsbG8="), chunk(0, false, HELLO));
    assert_eq!(memory.send("t1", 0, "YWJj"), chunk(0, true, HELLO));
    assert_eq!(memory.files["/data/chunks/s1/00000000.chunk"], b"hello");
    assert_eq!(memory.chunks.len(), 1);
}

#[test]
fn upload_by_id_needs_no_session() {
    let mut memory = memory();
    let req = UploadChunkReq { idx: 0, data_b64: "YWJj".to_string() };
    let step = upload_chunk(&memory.config, "s9".to_string(), req);
    assert_eq!(memory.run(step), chunk(0, false, ABC));
    assert_eq!(memory.files["/data/chunks/s9/00000000.chunk"], b"abc");
}

#[test]
fn upload_that_is_no_base64_is_refused() {
    let mut memory = memory();
    memory.open_session("s1", "t1");
    let outcome = memory.send("t1", 0, "YWJ*");
    assert_eq!(outcome, refused(400, "invalid base64: Invalid symbol 42, offset 3."));
    assert!(memory.chunks.is_empty() && memory.files.is_empty());
}

#[test]
fn upload_over_the_limit_is_refused() {
    let mut memory = memory();
    memory.open_session("s1", "t1");
    let at_limit = upload_decoded(&memory.config, "s1".to_string(), 0, Ok(vec![7; 16]));
    assert!(memory.run(at_limit).is_ok());
    let over = upload_decoded(&memory.config, "s1".to_string(), 1, Ok(vec![7; 17]));
    assert_eq!(memory.run(over), refused(413, "chunk too large for server limit"));
    let outcome = memory.send("t1", 2, "MDEyMzQ1Njc4OWFiY2RlZjA=");
    assert_eq!(outcome, refused(413, "chunk too large for server limit"));
    assert_eq!(memory.chunks.len(), 1);
}

#[test]
fn upload_that_did_not_decode_is_refused_with_the_fault() {
    let memory = memory();
    let step = upload_decoded(&memory.config, "s1".to_string(), 0, Err("bad".to_string()));
    assert_eq!(step, Step::Finish { outcome: refused(400, "invalid base64: bad") });
}

#[test]
fn failed_upload_can_be_sent_again() {
    for fail_at in 0..7 {
        let mut memory = memory();
        memory.open_session("s1", "t1");
        memory.fail_at = Some(fail_at);
        assert_eq!(memory.send("t1", 0, "aGVsbG8="), refused(500, "disk I/O error"));
        assert!(memory.chunks.is_empty());
        assert_eq!(memory.send("t1", 0, "aGVsbG8="), chunk(0, false, HELLO));
        assert_eq!(memory.files["/data/chunks/s1/00000000.chunk"], b"hello");
    }
}

#[test]
fn chunk_can_be_sent_again_at_any_time() {
    let mut memory = memory();
    memory.open_session("s1", "t1");
    memory.open_session("s2", "t2");
    memory.fail_at = Some(4);
    assert!(memory.send("t1", 0, "aGVsbG8=").is_err());
    memory.send("t1", 1, "YWJj").unwrap();
    memory.send("t2", 0, "YWJj").unwrap();
    memory.finalize("t1").unwrap();
    memory.run(delete_by_token("t2".to_string())).unwrap();
    assert_eq!(memory.send("t1", 0, "aGVsbG8="), chunk(0, false, HELLO));
    memory.send("t1", 2, "YWJj").unwrap();
    assert_eq!(memory.send("t1", 0, "aGVsbG8="), chunk(0, true, HELLO));
    memory.finalize("t1").unwrap();
    assert_eq!(played(memory.play("t1")), b"helloabcabc");
}

#[test]
fn failed_upload_leaves_other_chunks_alone() {
    for fail_at in 0..7 {
        let mut memory = memory();
        memory.open_session("s1", "t1");
        memory.send("t1", 0, "aGVsbG8=").unwrap();
        memory.fail_at = Some(fail_at);
        assert!(memory.send("t1", 1, "YWJj").is_err());
        assert_eq!(memory.files["/data/chunks/s1/00000000.chunk"], b"hello");
        memory.finalize("t1").unwrap();
        assert_eq!(played(memory.play("t1")), b"hello");
    }
}

#[test]
fn recording_is_the_chunks_in_order() {
    let mut memory = memory();
    memory.open_session("s1", "t1");
    memory.open_session("s2", "t2");
    memory.send("t1", 10, "IQ==").unwrap();
    memory.send("t1", 0, "aGVsbG8=").unwrap();
    memory.send("t2", 0, "b3RoZXI=").unwrap();
    memory.send("t1", 2, "d29ybGQ=").unwrap();
    memory.send("t1", 1, "IA==").unwrap();
    memory.send("t1", 0, "aGVsbG8=").unwrap();
    assert_eq!(memory.finalize("t1"), text("finalized: /r/t1/file"));
    assert_eq!(memory.files["/data/final/s1.webm"], b"hello world!");
    assert_eq!(played(memory.play("t1")), b"hello world!");
    assert_eq!(memory.sessions["s1"].status, "finalized");
    assert_eq!(memory.sessions["s1"].output_path.as_deref(), Some("/data/final/s1.webm"));
    assert_eq!(memory.sessions["s2"].status, "recording");
}

#[test]
fn refused_uploads_and_gaps_do_not_matter() {
    let mut memory = memory();
    memory.open_session("s1", "t1");
    memory.send("t1", 4294967295, "YWJj").unwrap();
    assert!(memory.send("t1", 7, "*").is_err());
    memory.send("t1", 5, "aGVsbG8=").unwrap();
    memory.send("t1", 5, "b3RoZXI=").unwrap();
    memory.finalize("t1").unwrap();
    assert_eq!(played(memory.play("t1")), b"helloabc");
}

#[test]
fn recording_is_played_with_its_headers() {
    let mut memory = memory();
    memory.open_session("s1", "t1");
    memory.send("t1", 0, "YWJj").unwrap();
    memory.finalize("t1").unwrap();
    for step in [download_file_by_token("t1".to_string()), download_file_legacy("s1".to_string())] {
        match memory.run(step) {
            Ok(Response::Audio(file)) => {
                assert_eq!(file.content_type, "audio/webm");
                assert_eq!(file.content_disposition, "inline; filename=\"s1.webm\"");
                assert_eq!(file.data, b"abc");
            }
            other => panic!("{other:?}"),
        }
    }
}

#[test]
fn id_that_fits_no_header_is_not_played() {
    let step = build_audio_response("a\nb".to_string(), Reply::Bytes(vec![1]));
    assert_eq!(step, Step::Finish { outcome: refused(500, "failed to parse header value") });
    let step = build_audio_response("a\tb\u{e9}".to_string(), Reply::Bytes(vec![1]));
    match step {
        Step::Finish { outcome: Ok(Response::Audio(file)) } => {
            assert_eq!(file.content_disposition, "inline; filename=\"a\tb\u{e9}.webm\"");
        }
        other => panic!("{other:?}"),
    }
}

#[test]
fn extension_can_be_chosen() {
    let mut memory = memory();
    memory.open_session("s1", "t1");
    memory.send("t1", 0, "YWJj").unwrap();
    let req = FinalizeReq { extension: Some("ogg".to_string()) };
    let step = finalize_session(&memory.config, "s1".to_string(), req);
    assert_eq!(memory.run(step), text("finalized: /r/t1/file"));
    assert_eq!(memory.files["/data/final/s1.ogg"], b"abc");
}

#[test]
fn finalizing_again_gives_the_same() {
    let mut memory = memory();
    memory.open_session("s1", "t1");
    memory.send("t1", 0, "YWJj").unwrap();
    let first = memory.finalize("t1");
    let files = memory.files.clone();
    assert_eq!(memory.finalize("t1"), first);
    assert_eq!(memory.files, files);
}

#[test]
fn nothing_to_finalize_without_chunks() {
    let mut memory = memory();
    memory.open_session("s1", "t1");
    assert_eq!(memory.finalize("t1"), refused(400, "no chunks uploaded"));
    assert!(memory.files.is_empty());
    assert_eq!(memory.sessions["s1"].status, "recording");
    assert_eq!(memory.play("t1"), refused(404, "finalized file not found"));
}

#[test]
fn session_without_token_is_finalized_without_link() {
    let mut memory = memory();
    memory.open_session("s1", "t1");
    memory.send("t1", 0, "YWJj").unwrap();
    memory.sessions.get_mut("s1").unwrap().secret_token = None;
    let step =
        finalize_session(&memory.config, "s1".to_string(), FinalizeReq { extension: None });
    assert_eq!(memory.run(step), refused(404, "secret token not found"));
    assert_eq!(memory.files["/data/final/s1.webm"], b"abc");
    assert_eq!(memory.sessions["s1"].status, "finalized");
    assert_eq!(memory.sessions["s1"].output_path.as_deref(), Some("/data/final/s1.webm"));
}

#[test]
fn session_is_marked_only_when_its_file_is_complete() {
    // The lookup of the session, the directory, the list, the file, two chunks read and
    // written, the flush and the mark.
    for fail_at in 0..10 {
        let mut memory = memory();
        memory.open_session("s1", "t1");
        memory.send("t1", 0, "aGVsbG8=").unwrap();
        memory.send("t1", 1, "YWJj").unwrap();
        memory.fail_at = Some(fail_at);
        assert_eq!(memory.finalize("t1"), refused(500, "disk I/O error"));
        assert_eq!(memory.sessions["s1"].status, "recording");
        assert_eq!(memory.files["/data/chunks/s1/00000000.chunk"], b"hello");
        assert_eq!(memory.files["/data/chunks/s1/00000001.chunk"], b"abc");
        assert_eq!(memory.finalize("t1"), text("finalized: /r/t1/file"));
        assert_eq!(played(memory.play("t1")), b"helloabc");
    }
}

#[test]
fn unknown_tokens_are_not_found() {
    let mut memory = memory();
    memory.open_session("s1", "t1");
    assert_eq!(memory.send("t2", 0, "YWJj"), refused(404, "session not found"));
    assert_eq!(memory.finalize("t2"), refused(404, "session not found"));
    assert_eq!(memory.play("t2"), refused(404, "recording not found"));
    let outcome = memory.run(delete_by_token("t2".to_string()));
    assert_eq!(outcome, refused(404, "session not found"));
    let outcome = memory.run(download_file_legacy("s2".to_string()));
    assert_eq!(outcome, refused(404, "finalized file not found"));
    let outcome = memory.run(delete_session_by_id("s2".to_string()));
    assert_eq!(outcome, refused(404, "session not found"));
    assert_eq!(memory.sessions.len(), 1);
    assert!(memory.files.is_empty());
}

#[test]
fn deleted_recording_is_gone() {
    let mut memory = memory();
    memory.open_session("s1", "t1");
    memory.open_session("s2", "t2");
    memory.send("t1", 0, "aGVsbG8=").unwrap();
    memory.send("t1", 1, "YWJj").unwrap();
    memory.send("t2", 0, "YWJj").unwrap();
    memory.finalize("t1").unwrap();
    memory.finalize("t2").unwrap();
    assert_eq!(memory.run(delete_by_token("t1".to_string())), text("deleted"));
    assert_eq!(memory.play("t1"), refused(404, "recording not found"));
    assert_eq!(memory.run(get_session("s1".to_string())), refused(404, "session not found"));
    let left: Vec<&String> = memory.files.keys().collect();
    assert_eq!(left, vec!["/data/chunks/s2/00000000.chunk", "/data/final/s2.webm"]);
    assert_eq!(memory.chunks.len(), 1);
    assert_eq!(played(memory.play("t2")), b"abc");
}

#[test]
fn session_without_recording_is_deleted_by_id() {
    let mut memory = memory();
    memory.open_session("s1", "t1");
    assert_eq!(memory.run(delete_session_by_id("s1".to_string())), text("deleted"));
    assert!(memory.sessions.is_empty());
}

#[test]
fn chunk_files_that_cannot_be_removed_go_with_their_directory() {
    let mut memory = memory();
    memory.open_session("s1", "t1");
    memory.send("t1", 0, "aGVsbG8=").unwrap();
    memory.finalize("t1").unwrap();
    memory.fail_at = Some(3);
    assert_eq!(memory.run(delete_by_token("t1".to_string())), text("deleted"));
    assert!(memory.sessions.is_empty() && memory.chunks.is_empty() && memory.files.is_empty());
}

#[test]
fn finalized_file_is_met_again_in_the_list() {
    let mut memory = memory();
    memory.open_session("s1", "t1");
    memory.send("t1", 0, "aGVsbG8=").unwrap();
    memory.finalize("t1").unwrap();
    memory.fail_at = Some(5);
    assert_eq!(memory.run(delete_by_token("t1".to_string())), text("deleted"));
    assert!(memory.sessions.is_empty() && memory.chunks.is_empty() && memory.files.is_empty());
}

#[test]
fn finalized_file_elsewhere_must_be_removed() {
    let mut memory = memory();
    memory.open_session("s1", "t1");
    memory.send("t1", 0, "aGVsbG8=").unwrap();
    memory.finalize("t1").unwrap();
    memory.files.insert("/old/s1.webm".to_string(), b"hello".to_vec());
    memory.sessions.get_mut("s1").unwrap().output_path = Some("/old/s1.webm".to_string());
    memory.fail_at = Some(5);
    let outcome = memory.run(delete_by_token("t1".to_string()));
    assert_eq!(outcome, refused(500, "disk I/O error"));
    let left: Vec<&String> = memory.files.keys().collect();
    assert_eq!(left, vec!["/old/s1.webm"]);
    assert_eq!(memory.run(delete_by_token("t1".to_string())), text("deleted"));
    assert!(memory.files.is_empty());
}

#[test]
fn chunk_file_outside_the_directory_must_be_removed() {
    let mut memory = memory();
    memory.open_session("s1", "t1");
    memory.send("t1", 0, "aGVsbG8=").unwrap();
    memory.finalize("t1").unwrap();
    memory.files.insert("/old/0.chunk".to_string(), b"hello".to_vec());
    memory.chunks.get_mut(&("s1".to_string(), 0)).unwrap().file_path = "/old/0.chunk".to_string();
    memory.fail_at = Some(3);
    let outcome = memory.run(delete_by_token("t1".to_string()));
    assert_eq!(outcome, refused(500, "disk I/O error"));
    let left: Vec<&String> = memory.files.keys().collect();
    assert_eq!(left, vec!["/old/0.chunk"]);
    assert_eq!(memory.run(delete_by_token("t1".to_string())), text("deleted"));
    assert!(memory.files.is_empty());
}

#[test]
fn what_cannot_be_removed_fails_a_deletion_after_all_the_rest() {
    // The directory, the list of the finalized files and one of another extension.
    for (fail_at, left) in [
        (4, vec!["/data/chunks/s1/stray"]),
        (6, vec!["/data/final/s1.ogg"]),
        (7, vec!["/data/final/s1.ogg"]),
    ] {
        let mut memory = memory();
        memory.open_session("s1", "t1");
        memory.send("t1", 0, "aGVsbG8=").unwrap();
        memory.finalize_as("t1", "ogg").unwrap();
        memory.finalize("t1").unwrap();
        memory.files.insert("/data/chunks/s1/stray".to_string(), b"x".to_vec());
        memory.fail_at = Some(fail_at);
        let outcome = memory.run(delete_by_token("t1".to_string()));
        assert_eq!(outcome, refused(500, "disk I/O error"));
        assert_eq!(memory.sessions.len(), 1);
        assert_eq!(memory.chunks.len(), 1);
        assert_eq!(memory.files.keys().collect::<Vec<_>>(), left);
        assert_eq!(memory.run(delete_by_token("t1".to_string())), text("deleted"));
        assert!(memory.sessions.is_empty() && memory.chunks.is_empty());
        assert!(memory.files.is_empty());
    }
}

#[test]
fn files_that_are_missing_do_not_stop_a_deletion() {
    let mut memory = memory();
    memory.open_session("s1", "t1");
    memory.send("t1", 0, "aGVsbG8=").unwrap();
    memory.finalize("t1").unwrap();
    memory.files.clear();
    assert_eq!(memory.run(delete_by_token("t1".to_string())), text("deleted"));
    assert!(memory.sessions.is_empty() && memory.chunks.is_empty());
}

#[test]
fn deletion_removes_every_finalized_file() {
    let mut memory = memory();
    memory.open_session("s1", "t1");
    memory.open_session("s11", "t2");
    memory.send("t1", 0, "aGVsbG8=").unwrap();
    memory.send("t2", 0, "YWJj").unwrap();
    memory.finalize("t2").unwrap();
    memory.finalize_as("t1", "webm").unwrap();
    memory.finalize_as("t1", "part/one").unwrap();
    memory.finalize_as("t1", "mp4").unwrap();
    assert!(memory.files.contains_key("/data/final/s1.webm"));
    assert!(memory.files.contains_key("/data/final/s1.part/one"));
    assert!(memory.files.contains_key("/data/final/s1.mp4"));
    assert_eq!(memory.run(delete_by_token("t1".to_string())), text("deleted"));
    let left: Vec<&String> = memory.files.keys().collect();
    assert_eq!(left, vec!["/data/chunks/s11/00000000.chunk", "/data/final/s11.webm"]);
}

#[test]
fn deletion_removes_an_output_that_was_never_completed() {
    let mut memory = memory();
    memory.open_session("s1", "t1");
    memory.send("t1", 0, "aGVsbG8=").unwrap();
    // The chunk cannot be read.
    memory.fail_at = Some(4);
    assert!(memory.finalize("t1").is_err());
    assert!(memory.files.contains_key("/data/final/s1.webm"));
    assert_eq!(memory.run(delete_by_token("t1".to_string())), text("deleted"));
    assert!(memory.files.is_empty());
}

#[test]
fn entries_of_a_session_are_chosen_by_their_name() {
    let config = memory().config;
    let pending = Pending::DeleteOutputList { session_id: "s1".to_string(), fault: None };
    let entry = |name: &str, is_dir| DirEntry { name: name.to_string(), is_dir };
    let entries = vec![
        entry("s11.webm", false),
        entry("s1.d", true),
        entry("s1", false),
        entry("s1.webm", false),
    ];
    let (pending, op) = match resume(&config, pending, Reply::Entries(entries)) {
        Step::Run { pending, effect: Effect::Disk(op) } => (pending, op),
        other => panic!("{other:?}"),
    };
    assert_eq!(op, DiskOp::RemoveDirAll { path: "/data/final/s1.d".to_string() });
    let (pending, op) = match resume(&config, pending, Reply::Done) {
        Step::Run { pending, effect: Effect::Disk(op) } => (pending, op),
        other => panic!("{other:?}"),
    };
    assert_eq!(op, DiskOp::RemoveFile { path: "/data/final/s1.webm".to_string() });
    match resume(&config, pending, Reply::Missing) {
        Step::Run { effect: Effect::Db(query), .. } => {
            assert_eq!(query, Query::DeleteChunks { session_id: "s1".to_string() });
        }
        other => panic!("{other:?}"),
    }
}

#[test]
fn deletion_is_permanent() {
    let mut memory = memory();
    memory.open_session("s1", "t1");
    memory.send("t1", 0, "YWJj").unwrap();
    memory.finalize("t1").unwrap();
    memory.run(delete_by_token("t1".to_string())).unwrap();
    memory.open_session("s2", "t2");
    memory.send("t2", 0, "YWJj").unwrap();
    for _ in 0..2 {
        assert_eq!(memory.send("t1", 0, "YWJj"), refused(404, "session not found"));
        assert_eq!(memory.finalize("t1"), refused(404, "session not found"));
        assert_eq!(memory.play("t1"), refused(404, "recording not found"));
        let outcome = memory.run(delete_by_token("t1".to_string()));
        assert_eq!(outcome, refused(404, "session not found"));
        assert_eq!(memory.run(get_session("s1".to_string())), refused(404, "session not found"));
        let outcome = memory.run(delete_session_by_id("s1".to_string()));
        assert_eq!(outcome, refused(404, "session not found"));
    }
}

#[test]
fn deletion_that_fails_in_the_database_leaves_the_session() {
    for fail_at in [0, 1, 2, 8, 9] {
        let mut memory = memory();
        memory.open_session("s1", "t1");
        memory.send("t1", 0, "aGVsbG8=").unwrap();
        memory.finalize_as("t1", "ogg").unwrap();
        memory.finalize("t1").unwrap();
        memory.fail_at = Some(fail_at);
        let outcome = memory.run(delete_by_token("t1".to_string()));
        assert_eq!(outcome, refused(500, "disk I/O error"));
        assert_eq!(memory.sessions.len(), 1);
        assert_eq!(memory.run(delete_by_token("t1".to_string())), text("deleted"));
        assert!(memory.sessions.is_empty() && memory.files.is_empty());
    }
}

#[test]
fn page_is_the_recorder() {
    let mut memory = memory();
    let step = secret_recorder_page(&memory.config);
    let missing = refused(500, "No such file or directory (os error 2)");
    assert_eq!(memory.run(step), missing);
    memory.files.insert("/web/index.html".to_string(), b"<html></html>".to_vec());
    let step = secret_recorder_page(&memory.config);
    assert_eq!(memory.run(step), Ok(Response::Page("<html></html>".to_string())));
}

#[test]
fn file_that_is_missing_is_an_internal_error() {
    let mut memory = memory();
    memory.open_session("s1", "t1");
    memory.send("t1", 0, "YWJj").unwrap();
    memory.finalize("t1").unwrap();
    memory.files.remove("/data/final/s1.webm");
    assert_eq!(memory.play("t1"), refused(500, "No such file or directory (os error 2)"));
}

#[test]
fn reply_that_no_effect_has_ends_a_request() {
    let memory = memory();
    let step = resume(&memory.config, Pending::GetLookup, Reply::Done);
    assert_eq!(step, Step::Finish { outcome: refused(500, "unexpected reply") });
    let step = resume(&memory.config, Pending::PageRead, Reply::Value(None));
    assert_eq!(step, Step::Finish { outcome: refused(500, "unexpected reply") });
}

#[test]
fn lookups_by_token_and_id() {
    let found = Reply::Value(Some("s1".to_string()));
    assert_eq!(find_session_id_by_token(found), Ok("s1".to_string()));
    let failure = |status, message: &str| Failure { status, message: message.to_string() };
    assert_eq!(
        find_session_id_by_token(Reply::Value(None)),
        Err(failure(404, "session not found"))
    );
    assert_eq!(
        find_session_id_by_token(Reply::Failed("locked".to_string())),
        Err(failure(500, "locked"))
    );
    let found = Reply::Column(Some(Some("t1".to_string())));
    assert_eq!(find_secret_token_by_session_id(found), Ok("t1".to_string()));
    for missing in [Reply::Column(Some(None)), Reply::Column(None)] {
        assert_eq!(
            find_secret_token_by_session_id(missing),
            Err(failure(404, "secret token not found"))
        );
    }
    assert_eq!(internal_err("oops".to_string()), failure(500, "oops"));
}

#[test]
fn statements_and_their_values() {
    let query = Query::InsertChunk {
        session_id: "s1".to_string(),
        idx: 4,
        byte_len: 5,
        sha256_hex: "ab".to_string(),
        file_path: "/f".to_string(),
    };
    assert_eq!(
        query.sql(),
        "INSERT INTO chunks (session_id, idx, byte_len, sha256_hex, file_path) VALUES (?, ?, ?, ?, ?)"
    );
    assert_eq!(
        query.binds(),
        vec![
            Bind::Text("s1".to_string()),
            Bind::Integer(4),
            Bind::Integer(5),
            Bind::Text("ab".to_string()),
            Bind::Text("/f".to_string()),
        ]
    );
    let query = Query::FinalizeSession { output_path: "/o".to_string(), id: "s1".to_string() };
    assert_eq!(
        query.sql(),
        "UPDATE sessions SET status = 'finalized', completed_at = datetime('now'), output_path = ? WHERE id = ?"
    );
    assert_eq!(
        query.binds(),
        vec![Bind::Text("/o".to_string()), Bind::Text("s1".to_string())]
    );
    let query = Query::ChunksInOrder { session_id: "s1".to_string() };
    assert_eq!(
        query.sql(),
        "SELECT idx, file_path FROM chunks WHERE session_id = ? ORDER BY idx ASC"
    );
    assert_eq!(query.binds(), vec![Bind::Text("s1".to_string())]);
}
