//! Bringing the server up: the directories, the database and its tables, and then the service.
use vstd::prelude::*;

use crate::config::{AppConfig, ConfigView};
use crate::outside::{debug_path, lowercase, path_debug, to_lowercase};
use crate::path::{parent, parent_path, sqlite_url_from_path};
use crate::text::{contains, joined, occurs, opt_text};

verus! {

/// What is being brought up.
#[derive(Debug, Clone, Copy, PartialEq, Eq)]
pub enum Stage {
    /// The directory of the recordings.
    DataDir,
    /// The directory of the database file.
    DatabaseDir,
    /// The URL of the database.
    DatabaseUrl,
    /// The connection to the database.
    Connection,
    /// The table of sessions.
    SessionsTable,
    /// The column of secret tokens, which older tables lack.
    TokenColumn,
    /// The index that keeps secret tokens unique.
    TokenIndex,
    /// The table of chunks.
    ChunksTable,
    /// The socket that is listened on.
    Listener,
    /// The service itself.
    Service,
}

/// What has to be done at a stage.
#[derive(Debug, PartialEq, Eq)]
pub enum StageAction {
    /// Make a directory and all those above it.
    CreateDirAll { path: String },
    /// Read the URL of the database.
    ParseUrl { url: String },
    /// Open the database at the URL that was read. It is made where it does not exist.
    Connect,
    /// Run a statement that takes no values.
    Execute { sql: String },
    /// Listen on all addresses at this port.
    Bind { port: u16 },
    /// Serve what comes in.
    Serve,
}

/// The model of a [`StageAction`].
pub enum StageActionView {
    CreateDirAll { path: Seq<char> },
    ParseUrl { url: Seq<char> },
    Connect,
    Execute { sql: Seq<char> },
    Bind { port: u16 },
    Serve,
}

impl View for StageAction {
    type V = StageActionView;

    open spec fn view(&self) -> StageActionView {
        match self {
            StageAction::CreateDirAll { path } => StageActionView::CreateDirAll { path: path@ },
            StageAction::ParseUrl { url } => StageActionView::ParseUrl { url: url@ },
            StageAction::Connect => StageActionView::Connect,
            StageAction::Execute { sql } => StageActionView::Execute { sql: sql@ },
            StageAction::Bind { port } => StageActionView::Bind { port: *port },
            StageAction::Serve => StageActionView::Serve,
        }
    }
}

/// The port that is served.
pub const PORT: u16 = 3000;

/// The URL of the database.
pub open spec fn database_url(config: ConfigView) -> Seq<char> {
    "sqlite://"@ + config.db_path
}

/// What has to be done at a stage. The database directory is skipped where the database file
/// stands in none.
pub open spec fn action_at(config: ConfigView, stage: Stage) -> Option<StageActionView> {
    match stage {
        Stage::DataDir => Some(StageActionView::CreateDirAll { path: config.data_dir }),
        Stage::DatabaseDir => match parent(config.db_path) {
            Some(path) => Some(StageActionView::CreateDirAll { path }),
            None => None,
        },
        Stage::DatabaseUrl => Some(StageActionView::ParseUrl { url: database_url(config) }),
        Stage::Connection => Some(StageActionView::Connect),
        Stage::SessionsTable => Some(
            StageActionView::Execute {
                sql:
                    "CREATE TABLE IF NOT EXISTS sessions (id TEXT PRIMARY KEY, status TEXT NOT NULL, mime_type TEXT, created_at TEXT NOT NULL DEFAULT (datetime('now')), completed_at TEXT, output_path TEXT, secret_token TEXT);"@,
            },
        ),
        Stage::TokenColumn => Some(
            StageActionView::Execute { sql: "ALTER TABLE sessions ADD COLUMN secret_token TEXT"@ },
        ),
        Stage::TokenIndex => Some(
            StageActionView::Execute {
                sql:
                    "CREATE UNIQUE INDEX IF NOT EXISTS idx_sessions_secret_token ON sessions(secret_token)"@,
            },
        ),
        Stage::ChunksTable => Some(
            StageActionView::Execute {
                sql:
                    "CREATE TABLE IF NOT EXISTS chunks (session_id TEXT NOT NULL, idx INTEGER NOT NULL, byte_len INTEGER NOT NULL, sha256_hex TEXT NOT NULL, file_path TEXT NOT NULL, created_at TEXT NOT NULL DEFAULT (datetime('now')), PRIMARY KEY (session_id, idx));"@,
            },
        ),
        Stage::Listener => Some(StageActionView::Bind { port: PORT }),
        Stage::Service => Some(StageActionView::Serve),
    }
}

/// What is said of a stage that fails, before what its failure says; `None` where the failure
/// speaks for itself.
pub open spec fn context_of(config: ConfigView, stage: Stage) -> Option<Seq<char>> {
    match stage {
        Stage::DataDir => Some("creating data dir "@ + path_debug(config.data_dir)),
        Stage::DatabaseDir => match parent(config.db_path) {
            Some(path) => Some("creating db parent dir "@ + path_debug(path)),
            None => None,
        },
        Stage::DatabaseUrl => Some("parsing sqlite url "@ + database_url(config)),
        Stage::Connection => Some("connecting sqlite "@ + database_url(config)),
        Stage::Service => Some("axum server terminated unexpectedly"@),
        _ => None,
    }
}

/// The outermost message of a stage that fails with `message`.
pub open spec fn outermost(config: ConfigView, stage: Stage, message: Seq<char>) -> Seq<char> {
    match context_of(config, stage) {
        Some(context) => context,
        None => message,
    }
}

/// The stage that follows. The service is the last.
pub open spec fn following(stage: Stage) -> Stage {
    match stage {
        Stage::DataDir => Stage::DatabaseDir,
        Stage::DatabaseDir => Stage::DatabaseUrl,
        Stage::DatabaseUrl => Stage::Connection,
        Stage::Connection => Stage::SessionsTable,
        Stage::SessionsTable => Stage::TokenColumn,
        Stage::TokenColumn => Stage::TokenIndex,
        Stage::TokenIndex => Stage::ChunksTable,
        Stage::ChunksTable => Stage::Listener,
        Stage::Listener => Stage::Service,
        Stage::Service => Stage::Service,
    }
}

/// Whether a message, in lower case, says that what was to be added is there already.
pub open spec fn says_already_there(lowered: Seq<char>) -> bool {
    occurs(lowered, "duplicate"@) || occurs(lowered, "already exists"@)
}

/// Whether bringing the server up goes on after a stage failed with a message: only where the
/// column of tokens was to be added and is there already.
pub open spec fn is_tolerated(stage: Stage, message: Seq<char>) -> bool {
    stage is TokenColumn && says_already_there(lowercase(message))
}

/// Whether bringing the server up goes on after a stage.
pub open spec fn goes_on(stage: Stage, result: Result<(), Seq<char>>) -> bool {
    match result {
        Ok(_) => true,
        Err(message) => is_tolerated(stage, message),
    }
}

/// The model of how a stage went.
pub open spec fn stage_result(result: Result<(), String>) -> Result<(), Seq<char>> {
    match result {
        Ok(_) => Ok(()),
        Err(message) => Err(message@),
    }
}

/// What has to be done at a stage; `None` where nothing has.
pub fn stage_action(config: &AppConfig, stage: Stage) -> (action: Option<StageAction>)
    ensures
        action is None <==> action_at(config@, stage) is None,
        action matches Some(a) ==> action_at(config@, stage) == Some(a@),
{
    match stage {
        Stage::DataDir => Some(StageAction::CreateDirAll { path: config.data_dir.clone() }),
        Stage::DatabaseDir => match parent_path(config.db_path.as_str()) {
            Some(path) => Some(StageAction::CreateDirAll { path }),
            None => None,
        },
        Stage::DatabaseUrl => Some(
            StageAction::ParseUrl { url: sqlite_url_from_path(config.db_path.as_str()) },
        ),
        Stage::Connection => Some(StageAction::Connect),
        Stage::SessionsTable => Some(
            StageAction::Execute {
                sql:
                    "CREATE TABLE IF NOT EXISTS sessions (id TEXT PRIMARY KEY, status TEXT NOT NULL, mime_type TEXT, created_at TEXT NOT NULL DEFAULT (datetime('now')), completed_at TEXT, output_path TEXT, secret_token TEXT);".to_owned(),
            },
        ),
        Stage::TokenColumn => Some(
            StageAction::Execute {
                sql: "ALTER TABLE sessions ADD COLUMN secret_token TEXT".to_owned(),
            },
        ),
        Stage::TokenIndex => Some(
            StageAction::Execute {
                sql:
                    "CREATE UNIQUE INDEX IF NOT EXISTS idx_sessions_secret_token ON sessions(secret_token)".to_owned(),
            },
        ),
        Stage::ChunksTable => Some(
            StageAction::Execute {
                sql:
                    "CREATE TABLE IF NOT EXISTS chunks (session_id TEXT NOT NULL, idx INTEGER NOT NULL, byte_len INTEGER NOT NULL, sha256_hex TEXT NOT NULL, file_path TEXT NOT NULL, created_at TEXT NOT NULL DEFAULT (datetime('now')), PRIMARY KEY (session_id, idx));".to_owned(),
            },
        ),
        Stage::Listener => Some(StageAction::Bind { port: PORT }),
        Stage::Service => Some(StageAction::Serve),
    }
}

/// What is said of a stage that fails, before what its failure says; `None` where the failure
/// speaks for itself.
pub fn stage_context(config: &AppConfig, stage: Stage) -> (context: Option<String>)
    ensures
        opt_text(context) == context_of(config@, stage),
{
    match stage {
        Stage::DataDir => {
            let path = debug_path(config.data_dir.as_str());
            Some(joined("creating data dir ", path.as_str()))
        },
        Stage::DatabaseDir => match parent_path(config.db_path.as_str()) {
            Some(path) => {
                let path = debug_path(path.as_str());
                Some(joined("creating db parent dir ", path.as_str()))
            },
            None => None,
        },
        Stage::DatabaseUrl => {
            let url = sqlite_url_from_path(config.db_path.as_str());
            Some(joined("parsing sqlite url ", url.as_str()))
        },
        Stage::Connection => {
            let url = sqlite_url_from_path(config.db_path.as_str());
            Some(joined("connecting sqlite ", url.as_str()))
        },
        Stage::Service => Some("axum server terminated unexpectedly".to_owned()),
        _ => None,
    }
}

/// Whether a message, in lower case, says that what was to be added is there already.
pub fn already_there(lowered: &str) -> (r: bool)
    ensures
        r == says_already_there(lowered@),
{
    contains(lowered, "duplicate") || contains(lowered, "already exists")
}

fn stage_after(stage: Stage) -> (next: Stage)
    ensures
        next == following(stage),
{
    match stage {
        Stage::DataDir => Stage::DatabaseDir,
        Stage::DatabaseDir => Stage::DatabaseUrl,
        Stage::DatabaseUrl => Stage::Connection,
        Stage::Connection => Stage::SessionsTable,
        Stage::SessionsTable => Stage::TokenColumn,
        Stage::TokenColumn => Stage::TokenIndex,
        Stage::TokenIndex => Stage::ChunksTable,
        Stage::ChunksTable => Stage::Listener,
        Stage::Listener => Stage::Service,
        Stage::Service => Stage::Service,
    }
}

/// The stage that follows, given how the current one went: an error ends it all, unless it is
/// tolerated, and its outermost message is given.
pub fn next_stage(
    config: &AppConfig,
    stage: Stage,
    result: Result<(), String>,
) -> (r: Result<Stage, String>)
    ensures
        r is Ok <==> goes_on(stage, stage_result(result)),
        r matches Ok(next) ==> next == following(stage),
        r matches Err(said) ==> result matches Err(message) && said@ == outermost(
            config@,
            stage,
            message@,
        ),
{
    match result {
        Ok(_) => Ok(stage_after(stage)),
        Err(message) => {
            let is_column: bool = match stage {
                Stage::TokenColumn => true,
                _ => false,
            };
            if is_column && already_there(to_lowercase(message.as_str()).as_str()) {
                Ok(stage_after(stage))
            } else {
                match stage_context(config, stage) {
                    Some(context) => Err(context),
                    None => Err(message),
                }
            }
        },
    }
}

/// The stages that come after `n` others, from the first.
pub open spec fn stage_number(n: nat) -> Stage
    decreases n,
{
    if n == 0 {
        Stage::DataDir
    } else {
        following(stage_number((n - 1) as nat))
    }
}

/// The server comes up in order: it listens when the directories, the connection, both tables, the
/// column and the index have had their turn, and not before, and serves after that.
pub proof fn law_every_stage_has_its_turn(stage: Stage)
    ensures
        stage_number(8) == Stage::Listener,
        stage_number(9) == Stage::Service,
        exists|n: nat| n <= 9 && stage == #[trigger] stage_number(n),
        forall|n: nat|
            n < 8 ==> #[trigger] stage_number(n) != Stage::Listener && stage_number(n)
                != Stage::Service,
{
    reveal_with_fuel(stage_number, 10);
    assert(stage_number(0) == Stage::DataDir);
    assert(stage_number(1) == Stage::DatabaseDir);
    assert(stage_number(2) == Stage::DatabaseUrl);
    assert(stage_number(3) == Stage::Connection);
    assert(stage_number(4) == Stage::SessionsTable);
    assert(stage_number(5) == Stage::TokenColumn);
    assert(stage_number(6) == Stage::TokenIndex);
    assert(stage_number(7) == Stage::ChunksTable);
    assert(stage_number(8) == Stage::Listener);
    assert(stage_number(9) == Stage::Service);
}

} // verus!
