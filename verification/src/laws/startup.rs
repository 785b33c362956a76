//! What bringing the server up makes of the database, and what its tables keep from then on.
use vstd::prelude::*;

use crate::config::ConfigView;
use crate::effect::{QueryView, ReplyView};
use crate::laws::dirs::lemma_stands_in_one_dir;
use crate::laws::places::law_parent_is_the_directory;
use crate::layout::is_name;
use crate::messages::SessionRowView;
use crate::outside::{ascii_lowercase, lowercase, path_debug};
use crate::path::parent;
use crate::startup::{
    action_at, following, goes_on, outermost, stage_number, Stage, StageActionView,
};
use crate::text::{occurs, occurs_at};
use crate::world::{opens, query_succeeds, stands_in, ChunkRow, World};

verus! {

/// A row of the table of sessions. SQLite takes a text key that is missing.
pub struct StoredSession {
    pub id: Option<Seq<char>>,
    pub status: Seq<char>,
    pub mime_type: Option<Seq<char>>,
    pub created_at: Seq<char>,
    pub completed_at: Option<Seq<char>>,
    pub output_path: Option<Seq<char>>,
    pub secret_token: Option<Seq<char>>,
}

/// A row of the table of chunks.
pub struct StoredChunk {
    pub session_id: Seq<char>,
    pub idx: i64,
    pub byte_len: i64,
    pub sha256_hex: Seq<char>,
    pub file_path: Seq<char>,
    pub created_at: Seq<char>,
}

/// The table of sessions: whether it has the column of tokens, and its rows by row number. Without
/// the column no row has a token.
pub struct SessionsTable {
    pub has_token: bool,
    pub rows: Map<int, StoredSession>,
}

/// What the database file holds of the server's: the tables, where they exist, and whether there is
/// the index of tokens.
pub struct Tables {
    pub sessions: Option<SessionsTable>,
    pub token_index: bool,
    pub chunks: Option<Map<int, StoredChunk>>,
}

/// The rows of sessions. Where there is no table there are none.
pub open spec fn session_rows(d: Tables) -> Map<int, StoredSession> {
    match d.sessions {
        Some(table) => table.rows,
        None => Map::empty(),
    }
}

/// The rows of chunks. Where there is no table there are none.
pub open spec fn chunk_rows(d: Tables) -> Map<int, StoredChunk> {
    match d.chunks {
        Some(rows) => rows,
        None => Map::empty(),
    }
}

/// Whether no two rows share an id.
pub open spec fn ids_differ(rows: Map<int, StoredSession>) -> bool {
    forall|a: int, b: int| #[trigger]
        rows.contains_key(a) && #[trigger] rows.contains_key(b) && a != b && rows[a].id is Some
            ==> rows[a].id != rows[b].id
}

/// Whether no two rows share a token.
pub open spec fn tokens_differ(rows: Map<int, StoredSession>) -> bool {
    forall|a: int, b: int| #[trigger]
        rows.contains_key(a) && #[trigger] rows.contains_key(b) && a != b
            && rows[a].secret_token is Some ==> rows[a].secret_token != rows[b].secret_token
}

/// Whether no two rows share session and index.
pub open spec fn keys_differ(rows: Map<int, StoredChunk>) -> bool {
    forall|a: int, b: int| #[trigger]
        rows.contains_key(a) && #[trigger] rows.contains_key(b) && a != b ==> (
        rows[a].session_id != rows[b].session_id || rows[a].idx != rows[b].idx)
}

/// Whether the rows are such as the primary keys and the index, as far as they exist, let stand.
pub open spec fn consistent(d: Tables) -> bool {
    &&& d.sessions matches Some(table) ==> {
        &&& ids_differ(table.rows)
        &&& !table.has_token ==> forall|k: int| #[trigger]
            table.rows.contains_key(k) ==> table.rows[k].secret_token is None
    }
    &&& d.token_index ==> {
        &&& d.sessions matches Some(table)
        &&& table.has_token
        &&& tokens_differ(table.rows)
    }
    &&& keys_differ(chunk_rows(d))
}

/// Whether all is there that the server works with.
pub open spec fn is_complete(d: Tables) -> bool {
    &&& d.sessions matches Some(table)
    &&& table.has_token
    &&& d.token_index
    &&& d.chunks is Some
}

/// Whether the table of sessions has the column of tokens and no two rows share one.
pub open spec fn can_be_indexed(d: Tables) -> bool {
    d.sessions matches Some(table) && table.has_token && tokens_differ(table.rows)
}

/// Whether a message is one with which SQLite refuses to add the column of tokens because it is
/// there: it is in ASCII, so that lower case changes the letters `A` to `Z` alone, and says so.
pub open spec fn says_duplicate_column(message: Seq<char>) -> bool {
    &&& forall|i: int| 0 <= i < message.len() ==> #[trigger] message[i] < '\u{80}'
    &&& lowercase(message) == message.map_values(|c: char| ascii_lowercase(c))
    &&& occurs(message, "duplicate column name: secret_token"@)
}

/// The column of tokens being there already does not stop the server: SQLite's refusal to add it is
/// tolerated, and no other stage's failure is.
pub proof fn law_column_that_is_there_is_tolerated(stage: Stage, message: Seq<char>)
    requires
        says_duplicate_column(message),
    ensures
        goes_on(Stage::TokenColumn, Err(message)),
        goes_on(stage, Err(message)) ==> stage is TokenColumn,
{
    reveal_strlit("duplicate column name: secret_token");
    reveal_strlit("duplicate");
    let said = "duplicate column name: secret_token"@;
    let word = "duplicate"@;
    let lowered = lowercase(message);
    let at = choose|at: int| occurs_at(message, said, at);
    assert(message.subrange(at, at + said.len()) == said);
    assert forall|i: int| 0 <= i < word.len() implies lowered[at + i] == #[trigger] word[i] by {
        assert(message[at + i] == message.subrange(at, at + said.len())[i]);
        assert(said[i] == word[i]);
        assert('a' <= word[i] <= 'z');
    }
    assert(lowered.subrange(at, at + word.len()) =~= word);
    assert(occurs_at(lowered, word, at));
}

/// What a stage does to the database, and how it goes; if `sure`, it fails only where it must. A
/// statement that fails does nothing, and the stages before the tables and after them do nothing
/// to what the database holds.
pub open spec fn stage_performs(
    d: Tables,
    stage: Stage,
    sure: bool,
    result: Result<(), Seq<char>>,
    after: Tables,
) -> bool {
    match (stage, result) {
        (Stage::SessionsTable, Ok(_)) => after == (if d.sessions is Some {
            d
        } else {
            Tables {
                sessions: Some(SessionsTable { has_token: true, rows: Map::empty() }),
                ..d
            }
        }),
        (Stage::TokenColumn, Ok(_)) => {
            &&& d.sessions matches Some(table)
            &&& !table.has_token
            &&& after == (Tables {
                sessions: Some(SessionsTable { has_token: true, rows: table.rows }),
                ..d
            })
        },
        (Stage::TokenColumn, Err(message)) => {
            &&& after == d
            &&& sure && d.sessions is Some ==> d.sessions->0.has_token && says_duplicate_column(
                message,
            )
        },
        (Stage::TokenIndex, Ok(_)) => if d.token_index {
            after == d
        } else {
            can_be_indexed(d) && after == (Tables { token_index: true, ..d })
        },
        (Stage::TokenIndex, Err(_)) => {
            &&& after == d
            &&& sure ==> !d.token_index && !can_be_indexed(d)
        },
        (Stage::ChunksTable, Ok(_)) => after == (if d.chunks is Some {
            d
        } else {
            Tables { chunks: Some(Map::empty()), ..d }
        }),
        (_, Ok(_)) => after == d,
        (_, Err(_)) => after == d && !sure,
    }
}

/// Whether the server that is at `stage` goes through the results and databases of `trace`, up to
/// the point where it would listen (then it is `up`) or to the first stage that stops it. No stage
/// after that is entered.
pub open spec fn passes(
    stage: Stage,
    d: Tables,
    sure: bool,
    trace: Seq<(Result<(), Seq<char>>, Tables)>,
    up: bool,
    end: Tables,
) -> bool
    decreases trace.len(),
{
    if stage is Listener || stage is Service {
        trace.len() == 0 && up && end == d
    } else {
        &&& trace.len() > 0
        &&& stage_performs(d, stage, sure, trace[0].0, trace[0].1)
        &&& if goes_on(stage, trace[0].0) {
            passes(following(stage), trace[0].1, sure, trace.drop_first(), up, end)
        } else {
            trace.len() == 1 && !up && end == trace[0].1
        }
    }
}

/// Whether the server that is at `stage` can come to listen, or not to, with the database `end`.
pub open spec fn comes_up(stage: Stage, d: Tables, sure: bool, up: bool, end: Tables) -> bool {
    exists|trace: Seq<(Result<(), Seq<char>>, Tables)>| #[trigger]
        passes(stage, d, sure, trace, up, end)
}

/// Whether making the tables, from the first statement to the last, succeeds or not and leaves the
/// database `end`.
pub open spec fn migrates(d: Tables, sure: bool, up: bool, end: Tables) -> bool {
    comes_up(Stage::SessionsTable, d, sure, up, end)
}

proof fn lemma_stage(stage: Stage, d: Tables, sure: bool, up: bool, end: Tables) -> (r: (
    Result<(), Seq<char>>,
    Tables,
))
    requires
        !(stage is Listener) && !(stage is Service),
        comes_up(stage, d, sure, up, end),
    ensures
        stage_performs(d, stage, sure, r.0, r.1),
        goes_on(stage, r.0) ==> comes_up(following(stage), r.1, sure, up, end),
        !goes_on(stage, r.0) ==> !up && end == r.1,
{
    let trace = choose|trace: Seq<(Result<(), Seq<char>>, Tables)>| #[trigger]
        passes(stage, d, sure, trace, up, end);
    if goes_on(stage, trace[0].0) {
        assert(passes(following(stage), trace[0].1, sure, trace.drop_first(), up, end));
    }
    trace[0]
}

/// Making the tables loses nothing, whether it succeeds or fails: every row of both tables is as it
/// was, so that rows of an older table have no token; and if it succeeds, all is there that the
/// server works with.
pub proof fn law_migration_keeps_every_row(d: Tables, sure: bool, up: bool, end: Tables)
    requires
        consistent(d),
        migrates(d, sure, up, end),
    ensures
        session_rows(end) == session_rows(d),
        chunk_rows(end) == chunk_rows(d),
        consistent(end),
        up ==> is_complete(end),
{
    let (r1, d1) = lemma_stage(Stage::SessionsTable, d, sure, up, end);
    if goes_on(Stage::SessionsTable, r1) {
        let (r2, d2) = lemma_stage(Stage::TokenColumn, d1, sure, up, end);
        if goes_on(Stage::TokenColumn, r2) {
            let (r3, d3) = lemma_stage(Stage::TokenIndex, d2, sure, up, end);
            if goes_on(Stage::TokenIndex, r3) {
                let (r4, d4) = lemma_stage(Stage::ChunksTable, d3, sure, up, end);
            }
        }
    }
}

/// Making the tables succeeds, if the statements do what they can, unless two sessions share a
/// token already.
pub proof fn law_migration_succeeds(d: Tables, up: bool, end: Tables)
    requires
        consistent(d),
        tokens_differ(session_rows(d)),
        migrates(d, true, up, end),
    ensures
        up,
{
    let (r1, d1) = lemma_stage(Stage::SessionsTable, d, true, up, end);
    let (r2, d2) = lemma_stage(Stage::TokenColumn, d1, true, up, end);
    if let Err(message) = r2 {
        law_column_that_is_there_is_tolerated(Stage::TokenColumn, message);
    }
    let (r3, d3) = lemma_stage(Stage::TokenIndex, d2, true, up, end);
    let (r4, d4) = lemma_stage(Stage::ChunksTable, d3, true, up, end);
}

/// Making the tables again changes nothing, neither the tables nor a row, whatever fails; and if
/// the statements do what they can, it succeeds, though the column is refused as already there.
pub proof fn law_migrating_again_changes_nothing(d: Tables, sure: bool, up: bool, end: Tables)
    requires
        consistent(d),
        is_complete(d),
        migrates(d, sure, up, end),
    ensures
        end == d,
        sure ==> up,
{
    let (r1, d1) = lemma_stage(Stage::SessionsTable, d, sure, up, end);
    if goes_on(Stage::SessionsTable, r1) {
        let (r2, d2) = lemma_stage(Stage::TokenColumn, d1, sure, up, end);
        assert(r2 is Err);
        if sure {
            law_column_that_is_there_is_tolerated(Stage::TokenColumn, r2->Err_0);
        }
        if goes_on(Stage::TokenColumn, r2) {
            let (r3, d3) = lemma_stage(Stage::TokenIndex, d2, sure, up, end);
            if goes_on(Stage::TokenIndex, r3) {
                let (r4, d4) = lemma_stage(Stage::ChunksTable, d3, sure, up, end);
            }
        }
    }
}

/// Two sessions that share a token already keep the tables from being made: the server does not
/// come up, and no row changes.
pub proof fn law_shared_token_stops_the_migration(
    d: Tables,
    a: int,
    b: int,
    sure: bool,
    up: bool,
    end: Tables,
)
    requires
        consistent(d),
        session_rows(d).contains_key(a),
        session_rows(d).contains_key(b),
        a != b,
        session_rows(d)[a].secret_token is Some,
        session_rows(d)[a].secret_token == session_rows(d)[b].secret_token,
        migrates(d, sure, up, end),
    ensures
        !up,
        session_rows(end) == session_rows(d),
        chunk_rows(end) == chunk_rows(d),
{
    law_migration_keeps_every_row(d, sure, up, end);
}

/// The server listens only when the tables have been made, and what comes before them leaves the
/// database alone.
pub proof fn law_listening_needs_the_tables(d: Tables, sure: bool, up: bool, end: Tables)
    requires
        comes_up(Stage::DataDir, d, sure, up, end),
    ensures
        migrates(d, sure, up, end) || (!up && !sure && end == d),
{
    let (r1, d1) = lemma_stage(Stage::DataDir, d, sure, up, end);
    if goes_on(Stage::DataDir, r1) {
        let (r2, d2) = lemma_stage(Stage::DatabaseDir, d1, sure, up, end);
        if goes_on(Stage::DatabaseDir, r2) {
            let (r3, d3) = lemma_stage(Stage::DatabaseUrl, d2, sure, up, end);
            if goes_on(Stage::DatabaseUrl, r3) {
                let (r4, d4) = lemma_stage(Stage::Connection, d3, sure, up, end);
            }
        }
    }
}

/// Whether `after` holds the rows of `rows` but for those of one session.
pub open spec fn without_session(
    rows: Map<int, StoredSession>,
    after: Map<int, StoredSession>,
    id: Seq<char>,
) -> bool {
    &&& forall|k: int| #[trigger]
        after.contains_key(k) <==> rows.contains_key(k) && rows[k].id != Some(id)
    &&& forall|k: int| #[trigger] after.contains_key(k) ==> after[k] == rows[k]
}

/// Whether `after` holds the rows of `rows` but for the chunks of one session.
pub open spec fn without_chunks(
    rows: Map<int, StoredChunk>,
    after: Map<int, StoredChunk>,
    session_id: Seq<char>,
) -> bool {
    &&& forall|k: int| #[trigger]
        after.contains_key(k) <==> rows.contains_key(k) && rows[k].session_id != session_id
    &&& forall|k: int| #[trigger] after.contains_key(k) ==> after[k] == rows[k]
}

/// Whether a new session can be added under the primary key and the index.
pub open spec fn takes_session(d: Tables, id: Seq<char>, secret_token: Seq<char>) -> bool {
    forall|k: int| #[trigger]
        session_rows(d).contains_key(k) ==> session_rows(d)[k].id != Some(id) && (d.token_index
            ==> session_rows(d)[k].secret_token != Some(secret_token))
}

/// Whether a new chunk can be added under the primary key.
pub open spec fn takes_chunk(d: Tables, session_id: Seq<char>, idx: i64) -> bool {
    forall|k: int| #[trigger]
        chunk_rows(d).contains_key(k) ==> chunk_rows(d)[k].session_id != session_id || chunk_rows(
            d,
        )[k].idx != idx
}

/// Whether `after` holds the rows of `rows`, with those of one session marked as finalized.
pub open spec fn with_session_finalized(
    rows: Map<int, StoredSession>,
    after: Map<int, StoredSession>,
    id: Seq<char>,
    output_path: Seq<char>,
) -> bool {
    &&& forall|k: int|
        #![trigger after.contains_key(k)]
        #![trigger rows.contains_key(k)]
        after.contains_key(k) <==> rows.contains_key(k)
    &&& forall|k: int| #[trigger]
        rows.contains_key(k) ==> if rows[k].id == Some(id) {
            &&& after[k].completed_at is Some
            &&& after[k] == (StoredSession {
                status: "finalized"@,
                completed_at: after[k].completed_at,
                output_path: Some(output_path),
                ..rows[k]
            })
        } else {
            after[k] == rows[k]
        }
}

/// What a statement of a request does to the tables where it succeeds. One that adds a row succeeds
/// only where the primary key and the index let it.
pub open spec fn changes_rows(d: Tables, query: QueryView, after: Tables) -> bool {
    &&& d.sessions is Some && d.chunks is Some
    &&& after.sessions is Some && after.chunks is Some
    &&& after.token_index == d.token_index
    &&& after.sessions->0.has_token == d.sessions->0.has_token
    &&& match query {
        QueryView::InsertSession { id, mime_type, secret_token } => {
            &&& takes_session(d, id, secret_token)
            &&& after.chunks == d.chunks
            &&& exists|k: int, row: StoredSession|
                {
                    &&& !session_rows(d).contains_key(k)
                    &&& row.id == Some(id)
                    &&& row.status == "recording"@
                    &&& row.mime_type == mime_type
                    &&& row.completed_at is None
                    &&& row.output_path is None
                    &&& row.secret_token == Some(secret_token)
                    &&& session_rows(after) == #[trigger] session_rows(d).insert(k, row)
                }
        },
        QueryView::InsertChunk { session_id, idx, byte_len, sha256_hex, file_path } => {
            &&& takes_chunk(d, session_id, idx)
            &&& after.sessions == d.sessions
            &&& exists|k: int, row: StoredChunk|
                {
                    &&& !chunk_rows(d).contains_key(k)
                    &&& row.session_id == session_id
                    &&& row.idx == idx
                    &&& row.byte_len == byte_len
                    &&& row.sha256_hex == sha256_hex
                    &&& row.file_path == file_path
                    &&& chunk_rows(after) == #[trigger] chunk_rows(d).insert(k, row)
                }
        },
        QueryView::FinalizeSession { output_path, id } => {
            &&& after.chunks == d.chunks
            &&& with_session_finalized(session_rows(d), session_rows(after), id, output_path)
        },
        QueryView::DeleteChunks { session_id } => {
            &&& after.sessions == d.sessions
            &&& without_chunks(chunk_rows(d), chunk_rows(after), session_id)
        },
        QueryView::DeleteSession { id } => {
            &&& after.chunks == d.chunks
            &&& without_session(session_rows(d), session_rows(after), id)
        },
        _ => after == d,
    }
}

/// Once the tables have been made, no two sessions share an id or a token and no two chunks share
/// session and index, and no statement of a request makes it otherwise.
pub proof fn law_rows_stay_distinct(d: Tables, query: QueryView, after: Tables)
    requires
        consistent(d),
        is_complete(d),
        changes_rows(d, query, after),
    ensures
        consistent(after),
        is_complete(after),
        ids_differ(session_rows(after)),
        tokens_differ(session_rows(after)),
        keys_differ(chunk_rows(after)),
{
}

/// A statement that would add a session whose id or token is taken, or a chunk that is there, does
/// not succeed once the tables have been made.
pub proof fn law_taken_keys_are_refused(d: Tables, query: QueryView, after: Tables)
    requires
        consistent(d),
        is_complete(d),
        changes_rows(d, query, after),
    ensures
        query matches QueryView::InsertSession { id, secret_token, .. } ==> forall|k: int| #[trigger]
            session_rows(d).contains_key(k) ==> session_rows(d)[k].id != Some(id) && session_rows(
                d,
            )[k].secret_token != Some(secret_token),
        query matches QueryView::InsertChunk { session_id, idx, .. } ==> forall|k: int| #[trigger]
            chunk_rows(d).contains_key(k) ==> chunk_rows(d)[k].session_id != session_id
                || chunk_rows(d)[k].idx != idx,
{
}

/// Whether the statements of requests led through the databases of `course`, one after the other.
pub open spec fn were_served(course: Seq<Tables>, queries: Seq<QueryView>) -> bool {
    &&& course.len() == queries.len() + 1
    &&& forall|i: int|
        0 <= i < queries.len() ==> changes_rows(course[i], #[trigger] queries[i], course[i + 1])
}

proof fn lemma_course_stays_complete(course: Seq<Tables>, queries: Seq<QueryView>, n: nat)
    requires
        were_served(course, queries),
        n < course.len(),
        consistent(course[0]),
        is_complete(course[0]),
    ensures
        consistent(course[n as int]),
        is_complete(course[n as int]),
    decreases n,
{
    if n > 0 {
        lemma_course_stays_complete(course, queries, (n - 1) as nat);
        law_rows_stay_distinct(course[n - 1], queries[n - 1], course[n as int]);
    }
}

/// Starting the server again on its database loses nothing: after the tables were made and any
/// requests were served, making them again changes neither the tables nor a row, whatever fails;
/// and if the statements do what they can, it succeeds.
pub proof fn law_restarting_loses_nothing(
    d: Tables,
    first_sure: bool,
    course: Seq<Tables>,
    queries: Seq<QueryView>,
    sure: bool,
    up: bool,
    end: Tables,
)
    requires
        consistent(d),
        were_served(course, queries),
        migrates(d, first_sure, true, course[0]),
        migrates(course.last(), sure, up, end),
    ensures
        end == course.last(),
        ids_differ(session_rows(end)),
        tokens_differ(session_rows(end)),
        keys_differ(chunk_rows(end)),
        sure ==> up,
{
    law_migration_keeps_every_row(d, first_sure, true, course[0]);
    lemma_course_stays_complete(course, queries, queries.len());
    law_migrating_again_changes_nothing(course.last(), sure, up, end);
}

/// The row of a session as it is read.
pub open spec fn row_as_read(row: StoredSession) -> SessionRowView {
    SessionRowView {
        id: row.id->0,
        status: row.status,
        mime_type: row.mime_type,
        created_at: row.created_at,
        completed_at: row.completed_at,
        output_path: row.output_path,
        secret_token: row.secret_token,
    }
}

/// Whether the world shows what the tables hold.
pub open spec fn shows(d: Tables, w: World) -> bool {
    &&& forall|k: int| #[trigger]
        session_rows(d).contains_key(k) && session_rows(d)[k].id is Some ==> w.sessions.contains_key(
            session_rows(d)[k].id->0,
        ) && w.sessions[session_rows(d)[k].id->0] == row_as_read(session_rows(d)[k])
    &&& forall|id: Seq<char>| #[trigger]
        w.sessions.contains_key(id) ==> exists|k: int| #[trigger]
            session_rows(d).contains_key(k) && session_rows(d)[k].id == Some(id)
    &&& forall|k: int| #[trigger]
        chunk_rows(d).contains_key(k) ==> {
            let row = chunk_rows(d)[k];
            &&& w.chunks.contains_key((row.session_id, row.idx))
            &&& w.chunks[(row.session_id, row.idx)] == (ChunkRow {
                byte_len: row.byte_len,
                sha256_hex: row.sha256_hex,
                file_path: row.file_path,
            })
        }
    &&& forall|key: (Seq<char>, i64)| #[trigger]
        w.chunks.contains_key(key) ==> exists|k: int| #[trigger]
            chunk_rows(d).contains_key(k) && chunk_rows(d)[k].session_id == key.0 && chunk_rows(
                d,
            )[k].idx == key.1
}

/// In tables that have been made no token opens two sessions.
pub proof fn law_token_opens_one_session(
    d: Tables,
    w: World,
    token: Seq<char>,
    id: Seq<char>,
    other: Seq<char>,
)
    requires
        consistent(d),
        is_complete(d),
        shows(d, w),
        opens(w, token, id),
        opens(w, token, other),
    ensures
        id == other,
{
    let rows = session_rows(d);
    let a = choose|k: int| #[trigger] rows.contains_key(k) && rows[k].id == Some(id);
    let b = choose|k: int| #[trigger] rows.contains_key(k) && rows[k].id == Some(other);
    assert(rows[a].secret_token == Some(token) && rows[b].secret_token == Some(token));
}

pub proof fn lemma_same_chunks(d: Tables, w: World, after: Tables, next: World)
    requires
        after.chunks == d.chunks,
        shows(d, w),
        shows(after, next),
    ensures
        next.chunks == w.chunks,
{
    assert forall|key: (Seq<char>, i64)|
        w.chunks.contains_key(key) == #[trigger] next.chunks.contains_key(key) && (
        w.chunks.contains_key(key) ==> next.chunks[key] == w.chunks[key]) by {
        if w.chunks.contains_key(key) {
            let k = choose|k: int| #[trigger]
                chunk_rows(d).contains_key(k) && chunk_rows(d)[k].session_id == key.0
                    && chunk_rows(d)[k].idx == key.1;
            assert(chunk_rows(after).contains_key(k));
        }
        if next.chunks.contains_key(key) {
            let k = choose|k: int| #[trigger]
                chunk_rows(after).contains_key(k) && chunk_rows(after)[k].session_id == key.0
                    && chunk_rows(after)[k].idx == key.1;
            assert(chunk_rows(d).contains_key(k));
        }
    }
    assert(next.chunks =~= w.chunks);
}

/// The number of the row of a session.
spec fn row_of(d: Tables, id: Seq<char>) -> int {
    choose|k: int| #[trigger]
        session_rows(d).contains_key(k) && session_rows(d)[k].id == Some(id)
}

/// The number of the row of a chunk.
spec fn chunk_row_of(d: Tables, key: (Seq<char>, i64)) -> int {
    choose|k: int| #[trigger]
        chunk_rows(d).contains_key(k) && chunk_rows(d)[k].session_id == key.0
            && chunk_rows(d)[k].idx == key.1
}

pub proof fn lemma_same_sessions(d: Tables, w: World, after: Tables, next: World)
    requires
        session_rows(after) == session_rows(d),
        shows(d, w),
        shows(after, next),
    ensures
        next.sessions == w.sessions,
{
    assert forall|id: Seq<char>|
        w.sessions.contains_key(id) == #[trigger] next.sessions.contains_key(id) && (
        w.sessions.contains_key(id) ==> next.sessions[id] == w.sessions[id]) by {
        if w.sessions.contains_key(id) {
            assert(session_rows(after).contains_key(row_of(d, id)));
        }
        if next.sessions.contains_key(id) {
            assert(session_rows(d).contains_key(row_of(after, id)));
        }
    }
    assert(next.sessions =~= w.sessions);
}

proof fn lemma_insert_session(d: Tables, w: World, query: QueryView, after: Tables, next: World)
    requires
        consistent(d),
        is_complete(d),
        shows(d, w),
        query is InsertSession,
        changes_rows(d, query, after),
        shows(after, next),
    ensures
        query_succeeds(w, query, ReplyView::Done, next),
{
    if let QueryView::InsertSession { id, mime_type, secret_token } = query {
        lemma_same_chunks(d, w, after, next);
        let (k, row) = choose|k: int, row: StoredSession|
            {
                &&& !session_rows(d).contains_key(k)
                &&& row.id == Some(id)
                &&& row.status == "recording"@
                &&& row.mime_type == mime_type
                &&& row.completed_at is None
                &&& row.output_path is None
                &&& row.secret_token == Some(secret_token)
                &&& session_rows(after) == #[trigger] session_rows(d).insert(k, row)
            };
        assert(session_rows(after).contains_key(k));
        if w.sessions.contains_key(id) {
            assert(session_rows(d).contains_key(row_of(d, id)));
        }
        assert forall|other: Seq<char>| !opens(w, secret_token, other) by {
            if opens(w, secret_token, other) {
                assert(session_rows(d).contains_key(row_of(d, other)));
            }
        }
        assert forall|other: Seq<char>| other != id implies w.sessions.contains_key(other)
            == #[trigger] next.sessions.contains_key(other) && (w.sessions.contains_key(other)
            ==> next.sessions[other] == w.sessions[other]) by {
            if w.sessions.contains_key(other) {
                assert(session_rows(d).contains_key(row_of(d, other)));
                assert(session_rows(after).contains_key(row_of(d, other)));
            }
            if next.sessions.contains_key(other) {
                assert(session_rows(after).contains_key(row_of(after, other)));
                assert(session_rows(d).contains_key(row_of(after, other)));
            }
        }
        assert(next.sessions =~= w.sessions.insert(id, next.sessions[id]));
    }
}

proof fn lemma_insert_chunk(d: Tables, w: World, query: QueryView, after: Tables, next: World)
    requires
        shows(d, w),
        query is InsertChunk,
        changes_rows(d, query, after),
        shows(after, next),
    ensures
        query_succeeds(w, query, ReplyView::Done, next),
{
    if let QueryView::InsertChunk { session_id, idx, byte_len, sha256_hex, file_path } = query {
        lemma_same_sessions(d, w, after, next);
        let key = (session_id, idx);
        let (k, row) = choose|k: int, row: StoredChunk|
            {
                &&& !chunk_rows(d).contains_key(k)
                &&& row.session_id == session_id
                &&& row.idx == idx
                &&& row.byte_len == byte_len
                &&& row.sha256_hex == sha256_hex
                &&& row.file_path == file_path
                &&& chunk_rows(after) == #[trigger] chunk_rows(d).insert(k, row)
            };
        assert(chunk_rows(after).contains_key(k));
        if w.chunks.contains_key(key) {
            assert(chunk_rows(d).contains_key(chunk_row_of(d, key)));
        }
        assert forall|other: (Seq<char>, i64)| other != key implies w.chunks.contains_key(other)
            == #[trigger] next.chunks.contains_key(other) && (w.chunks.contains_key(other)
            ==> next.chunks[other] == w.chunks[other]) by {
            if w.chunks.contains_key(other) {
                assert(chunk_rows(after).contains_key(chunk_row_of(d, other)));
            }
            if next.chunks.contains_key(other) {
                assert(chunk_rows(d).contains_key(chunk_row_of(after, other)));
            }
        }
        assert(next.chunks =~= w.chunks.insert(key, ChunkRow { byte_len, sha256_hex, file_path }));
    }
}

proof fn lemma_finalize_session(d: Tables, w: World, query: QueryView, after: Tables, next: World)
    requires
        shows(d, w),
        query is FinalizeSession,
        changes_rows(d, query, after),
        shows(after, next),
    ensures
        query_succeeds(w, query, ReplyView::Done, next),
{
    if let QueryView::FinalizeSession { output_path, id } = query {
        lemma_same_chunks(d, w, after, next);
        assert forall|other: Seq<char>|
            w.sessions.contains_key(other) == #[trigger] next.sessions.contains_key(other) && (
            w.sessions.contains_key(other) && other != id ==> next.sessions[other]
                == w.sessions[other]) by {
            if w.sessions.contains_key(other) {
                assert(session_rows(after).contains_key(row_of(d, other)));
            }
            if next.sessions.contains_key(other) {
                assert(session_rows(d).contains_key(row_of(after, other)));
            }
        }
        if w.sessions.contains_key(id) {
            assert(session_rows(d).contains_key(row_of(d, id)));
            assert(session_rows(after).contains_key(row_of(d, id)));
            assert(next.sessions =~= w.sessions.insert(id, next.sessions[id]));
        } else {
            assert(next.sessions =~= w.sessions);
        }
    }
}

proof fn lemma_delete_rows_of(d: Tables, w: World, query: QueryView, after: Tables, next: World)
    requires
        shows(d, w),
        query is DeleteChunks || query is DeleteSession,
        changes_rows(d, query, after),
        shows(after, next),
    ensures
        query_succeeds(w, query, ReplyView::Done, next),
{
    match query {
        QueryView::DeleteChunks { session_id } => {
            lemma_same_sessions(d, w, after, next);
            assert forall|key: (Seq<char>, i64)|
                (#[trigger] next.chunks.contains_key(key) <==> w.chunks.contains_key(key) && key.0
                    != session_id) && (next.chunks.contains_key(key) ==> next.chunks[key]
                    == w.chunks[key]) by {
                if w.chunks.contains_key(key) && key.0 != session_id {
                    assert(chunk_rows(after).contains_key(chunk_row_of(d, key)));
                }
                if next.chunks.contains_key(key) {
                    assert(chunk_rows(after).contains_key(chunk_row_of(after, key)));
                    assert(chunk_rows(d).contains_key(chunk_row_of(after, key)));
                }
            }
        },
        QueryView::DeleteSession { id } => {
            lemma_same_chunks(d, w, after, next);
            assert forall|other: Seq<char>|
                (#[trigger] next.sessions.contains_key(other) <==> w.sessions.contains_key(other)
                    && other != id) && (next.sessions.contains_key(other)
                    ==> next.sessions[other] == w.sessions[other]) by {
                if w.sessions.contains_key(other) && other != id {
                    assert(session_rows(after).contains_key(row_of(d, other)));
                }
                if next.sessions.contains_key(other) {
                    assert(session_rows(after).contains_key(row_of(after, other)));
                    assert(session_rows(d).contains_key(row_of(after, other)));
                }
            }
            assert(next.sessions =~= w.sessions.remove(id));
        },
        _ => {},
    }
}

/// Whether a statement adds, changes or removes rows.
pub open spec fn is_change(query: QueryView) -> bool {
    ||| query is InsertSession
    ||| query is InsertChunk
    ||| query is FinalizeSession
    ||| query is DeleteChunks
    ||| query is DeleteSession
}

/// What requests rely on is what tables that have been made give: a statement that changes their
/// rows does to what they show exactly what the model of the database says, and so refuses an id,
/// a token or a chunk that is there.
pub proof fn law_requests_rely_on_the_tables(
    d: Tables,
    w: World,
    query: QueryView,
    after: Tables,
    next: World,
)
    requires
        consistent(d),
        is_complete(d),
        shows(d, w),
        is_change(query),
        changes_rows(d, query, after),
        shows(after, next),
    ensures
        query_succeeds(w, query, ReplyView::Done, next),
{
    match query {
        QueryView::InsertSession { .. } => {
            lemma_insert_session(d, w, query, after, next);
        },
        QueryView::InsertChunk { .. } => {
            lemma_insert_chunk(d, w, query, after, next);
        },
        QueryView::FinalizeSession { .. } => {
            lemma_finalize_session(d, w, query, after, next);
        },
        _ => {
            lemma_delete_rows_of(d, w, query, after, next);
        },
    }
}

/// The directory of the recordings is made as it is configured, and the database file gets the
/// directory that it stands in, before the database is connected to under its own path.
pub proof fn law_startup_makes_its_directories(
    config: ConfigView,
    dir: Seq<char>,
    name: Seq<char>,
)
    requires
        config.db_path == dir + "/"@ + name,
        is_name(name),
        name != "."@,
        dir.len() > 0,
        dir.last() != '/',
        dir.len() > 1 && dir.last() == '.' ==> dir[dir.len() - 2] != '/',
    ensures
        stands_in(config.db_path, dir),
        action_at(config, stage_number(0)) == Some(
            StageActionView::CreateDirAll { path: config.data_dir },
        ),
        action_at(config, stage_number(1)) == Some(StageActionView::CreateDirAll { path: dir }),
        action_at(config, stage_number(2)) == Some(
            StageActionView::ParseUrl { url: "sqlite://"@ + config.db_path },
        ),
        action_at(config, stage_number(3)) == Some(StageActionView::Connect),
        action_at(config, stage_number(8)) == Some(StageActionView::Bind { port: 3000 }),
        action_at(config, stage_number(9)) == Some(StageActionView::Serve),
{
    reveal_strlit("/");
    reveal_with_fuel(stage_number, 10);
    law_parent_is_the_directory(dir, name);
    assert(config.db_path =~= dir.push('/') + name);
    lemma_stands_in_one_dir(config.db_path, dir, name);
}

/// Whatever is configured, the tables and the index come after the connection and in this order,
/// and listening comes after them.
pub proof fn law_tables_come_before_listening()
    ensures
        stage_number(3) == Stage::Connection,
        stage_number(4) == Stage::SessionsTable,
        stage_number(5) == Stage::TokenColumn,
        stage_number(6) == Stage::TokenIndex,
        stage_number(7) == Stage::ChunksTable,
        stage_number(8) == Stage::Listener,
        stage_number(9) == Stage::Service,
{
    reveal_with_fuel(stage_number, 10);
}

/// What is said of a stage that fails names what could not be done, and for the database its URL;
/// what a statement or the listener says is passed on.
pub proof fn law_failed_stage_is_named(config: ConfigView, message: Seq<char>)
    ensures
        outermost(config, Stage::DataDir, message) == "creating data dir "@ + path_debug(
            config.data_dir,
        ),
        parent(config.db_path) matches Some(dir) ==> outermost(config, Stage::DatabaseDir, message)
            == "creating db parent dir "@ + path_debug(dir),
        outermost(config, Stage::DatabaseUrl, message) == "parsing sqlite url "@ + ("sqlite://"@
            + config.db_path),
        outermost(config, Stage::Connection, message) == "connecting sqlite "@ + ("sqlite://"@
            + config.db_path),
        outermost(config, Stage::SessionsTable, message) == message,
        outermost(config, Stage::TokenColumn, message) == message,
        outermost(config, Stage::TokenIndex, message) == message,
        outermost(config, Stage::ChunksTable, message) == message,
        outermost(config, Stage::Listener, message) == message,
        outermost(config, Stage::Service, message) == "axum server terminated unexpectedly"@,
{
}

/// Only where the column of tokens is being added can a failure be passed over, and only if its
/// message, in lower case, holds `duplicate` or `already exists`.
pub proof fn law_only_a_column_that_is_there_is_tolerated(stage: Stage, message: Seq<char>)
    ensures
        goes_on(stage, Ok(())),
        goes_on(stage, Err(message)) <==> stage == Stage::TokenColumn && ((exists|at: int| #[trigger]
            occurs_at(lowercase(message), "duplicate"@, at)) || (exists|at: int| #[trigger]
            occurs_at(lowercase(message), "already exists"@, at))),
{
}

} // verus!
