//! The server's two tables, and what its statements, read as SQL, do to them and give of them: what
//! the model of the database says, for every value that is bound.
use vstd::prelude::*;

use crate::effect::{BindView, ListedChunkView, QueryView, RecordingView, ReplyView};
use crate::laws::sql::{law_every_query_is_read, statement};
use crate::laws::startup::{
    changes_rows, chunk_rows, consistent, is_change, is_complete, law_requests_rely_on_the_tables,
    lemma_same_chunks, lemma_same_sessions, row_as_read, session_rows, shows, takes_chunk,
    takes_session, SessionsTable, StoredChunk, StoredSession, Tables,
};
use crate::messages::SessionRowView;
use crate::sql::{
    admits, agree, bound_below, does, fits, has_column, is_made_row, is_refused, is_understood,
    is_value_of, meets, projected, reads, selects, suits, with_rows, Column, ColumnDef, Database,
    Kind, Row, Statement, Table, TableName, Value,
};
use crate::world::{
    is_file_of_chunk, lists_files, lists_in_order, opens, opens_some, query_must_fail,
    query_succeeds, World,
};

verus! {

/// A column of text.
pub open spec fn text_column(column: Column, not_null: bool) -> ColumnDef {
    ColumnDef { column, kind: Kind::Text, primary_key: false, not_null, now: false }
}

/// A column of numbers.
pub open spec fn number_column(column: Column) -> ColumnDef {
    ColumnDef { column, kind: Kind::Integer, primary_key: false, not_null: true, now: false }
}

/// The column of the time at which a row was added.
pub open spec fn time_column() -> ColumnDef {
    ColumnDef {
        column: Column::CreatedAt,
        kind: Kind::Text,
        primary_key: false,
        not_null: true,
        now: true,
    }
}

/// The columns of the table of sessions; those of an older table lack the token.
pub open spec fn session_columns(with_token: bool) -> Seq<ColumnDef> {
    let older = seq![
        ColumnDef {
            column: Column::Id,
            kind: Kind::Text,
            primary_key: true,
            not_null: false,
            now: false,
        },
        text_column(Column::Status, true),
        text_column(Column::MimeType, false),
        time_column(),
        text_column(Column::CompletedAt, false),
        text_column(Column::OutputPath, false),
    ];
    if with_token {
        older.push(text_column(Column::SecretToken, false))
    } else {
        older
    }
}

/// The columns of the table of chunks.
pub open spec fn chunk_columns() -> Seq<ColumnDef> {
    seq![
        text_column(Column::SessionId, true),
        number_column(Column::Idx),
        number_column(Column::ByteLen),
        text_column(Column::Sha256Hex, true),
        text_column(Column::FilePath, true),
        time_column(),
    ]
}

/// Whether a table is the table of sessions, in which ids and tokens are unique by themselves and
/// nothing else is.
pub open spec fn is_sessions_table(table: Table) -> bool {
    &&& table.columns == session_columns(true)
    &&& table.unique == seq![seq![Column::Id], seq![Column::SecretToken]]
}

/// Whether a table is the table of chunks, in which session and index are unique together and
/// nothing else is.
pub open spec fn is_chunks_table(table: Table) -> bool {
    &&& table.columns == chunk_columns()
    &&& table.unique == seq![seq![Column::SessionId, Column::Idx]]
}

/// Whether a database has the server's tables.
pub open spec fn is_made(db: Database) -> bool {
    &&& db.tables.contains_key(TableName::Sessions)
    &&& db.tables.contains_key(TableName::Chunks)
    &&& is_sessions_table(db.tables[TableName::Sessions])
    &&& is_chunks_table(db.tables[TableName::Chunks])
    &&& db.indexes.contains("idx_sessions_secret_token"@)
}

/// Whether the rows of a table are such as its declaration lets stand.
pub open spec fn is_valid_table(table: Table) -> bool {
    &&& forall|k: int, c: Column|
        table.rows.contains_key(k) ==> (#[trigger] table.rows[k].contains_key(c) <==> has_column(
            table,
            c,
        ))
    &&& forall|k: int, i: int|
        0 <= i < table.columns.len() && table.rows.contains_key(k) ==> fits(
            #[trigger] table.rows[k][(#[trigger] table.columns[i]).column],
            table.columns[i].kind,
        ) && (table.columns[i].not_null ==> table.rows[k][table.columns[i].column] != Value::Null)
    &&& forall|a: int, b: int, u: int|
        0 <= u < table.unique.len() && table.rows.contains_key(a) && table.rows.contains_key(b) && a
            != b ==> !#[trigger] agree(table.rows[a], table.rows[b], table.unique[u])
}

/// Whether the rows of a database are such as its tables let stand, and every session has an id.
pub open spec fn is_valid(db: Database) -> bool {
    &&& is_valid_table(db.tables[TableName::Sessions])
    &&& is_valid_table(db.tables[TableName::Chunks])
    &&& forall|k: int| #[trigger]
        db.tables[TableName::Sessions].rows.contains_key(k)
            ==> db.tables[TableName::Sessions].rows[k][Column::Id] is Text
}

/// The text that a value is, if it is one.
pub open spec fn text_in(value: Value) -> Option<Seq<char>> {
    match value {
        Value::Text(text) => Some(text),
        _ => None,
    }
}

/// The number that a value is.
pub open spec fn number_in(value: Value) -> i64 {
    value->Integer_0
}

/// A row of the table of sessions.
pub open spec fn session_in(row: Row) -> StoredSession {
    StoredSession {
        id: text_in(row[Column::Id]),
        status: text_in(row[Column::Status])->0,
        mime_type: text_in(row[Column::MimeType]),
        created_at: text_in(row[Column::CreatedAt])->0,
        completed_at: text_in(row[Column::CompletedAt]),
        output_path: text_in(row[Column::OutputPath]),
        secret_token: text_in(row[Column::SecretToken]),
    }
}

/// A row of the table of chunks.
pub open spec fn chunk_in(row: Row) -> StoredChunk {
    StoredChunk {
        session_id: text_in(row[Column::SessionId])->0,
        idx: number_in(row[Column::Idx]),
        byte_len: number_in(row[Column::ByteLen]),
        sha256_hex: text_in(row[Column::Sha256Hex])->0,
        file_path: text_in(row[Column::FilePath])->0,
        created_at: text_in(row[Column::CreatedAt])->0,
    }
}

/// What a database with the server's tables holds of the server's.
pub open spec fn held(db: Database) -> Tables {
    Tables {
        sessions: Some(
            SessionsTable {
                has_token: true,
                rows: db.tables[TableName::Sessions].rows.map_values(|row: Row| session_in(row)),
            },
        ),
        token_index: true,
        chunks: Some(db.tables[TableName::Chunks].rows.map_values(|row: Row| chunk_in(row))),
    }
}

/// The value that is bound.
pub open spec fn bound(bind: BindView) -> Value {
    match bind {
        BindView::Text(text) => Value::Text(text),
        BindView::MaybeText(Some(text)) => Value::Text(text),
        BindView::MaybeText(None) => Value::Null,
        BindView::Integer(number) => Value::Integer(number),
    }
}

/// The values that are bound for a query.
pub open spec fn bound_values(query: QueryView) -> Seq<Value> {
    query.binds().map_values(|bind: BindView| bound(bind))
}

/// The columns that a statement gives.
pub open spec fn columns_of(statement: Statement) -> Seq<Column> {
    match statement {
        Statement::Select { columns, .. } => columns,
        _ => seq![],
    }
}

/// The value under the name of a column.
pub open spec fn under(columns: Seq<Column>, row: Seq<Value>, column: Column) -> Value {
    row[choose|i: int| 0 <= i < columns.len() && columns[i] == column]
}

/// The reply that the rows of a query are: a session's row is taken apart by the names of the
/// columns, any other by position, and of a lookup the first row counts.
pub open spec fn reply_in(query: QueryView, result: Seq<Seq<Value>>) -> ReplyView {
    let columns = columns_of(statement(query));
    match query {
        QueryView::SessionById { .. } => ReplyView::Session(
            if result.len() == 0 {
                None
            } else {
                Some(
                    SessionRowView {
                        id: text_in(under(columns, result[0], Column::Id))->0,
                        status: text_in(under(columns, result[0], Column::Status))->0,
                        mime_type: text_in(under(columns, result[0], Column::MimeType)),
                        created_at: text_in(under(columns, result[0], Column::CreatedAt))->0,
                        completed_at: text_in(under(columns, result[0], Column::CompletedAt)),
                        output_path: text_in(under(columns, result[0], Column::OutputPath)),
                        secret_token: text_in(under(columns, result[0], Column::SecretToken)),
                    },
                )
            },
        ),
        QueryView::SessionIdByToken { .. } | QueryView::ChunkDigest { .. } => ReplyView::Value(
            if result.len() == 0 {
                None
            } else {
                Some(text_in(result[0][0])->0)
            },
        ),
        QueryView::SecretTokenById { .. } | QueryView::OutputPathById { .. } => ReplyView::Column(
            if result.len() == 0 {
                None
            } else {
                Some(text_in(result[0][0]))
            },
        ),
        QueryView::RecordingByToken { .. } => ReplyView::Recording(
            if result.len() == 0 {
                None
            } else {
                Some(
                    RecordingView {
                        session_id: text_in(result[0][0])->0,
                        output_path: text_in(result[0][1]),
                    },
                )
            },
        ),
        QueryView::ChunksInOrder { .. } => ReplyView::Chunks(
            Seq::new(
                result.len(),
                |i: int|
                    ListedChunkView {
                        idx: number_in(result[i][0]),
                        file_path: text_in(result[i][1])->0,
                    },
            ),
        ),
        QueryView::ChunkFiles { .. } => ReplyView::Paths(
            Seq::new(result.len(), |i: int| text_in(result[i][0])->0),
        ),
        _ => ReplyView::Done,
    }
}

proof fn lemma_session_columns(table: Table)
    requires
        table.columns == session_columns(true),
    ensures
        forall|c: Column| #[trigger]
            has_column(table, c) <==> c is Id || c is Status || c is MimeType || c is CreatedAt
                || c is CompletedAt || c is OutputPath || c is SecretToken,
        forall|c: Column, t: Seq<char>|
            has_column(table, c) ==> #[trigger] suits(table, c, Value::Text(t)),
        forall|c: Column| has_column(table, c) ==> #[trigger] suits(table, c, Value::Null),
{
    assert(table.columns[0].column == Column::Id);
    assert(table.columns[1].column == Column::Status);
    assert(table.columns[2].column == Column::MimeType);
    assert(table.columns[3].column == Column::CreatedAt);
    assert(table.columns[4].column == Column::CompletedAt);
    assert(table.columns[5].column == Column::OutputPath);
    assert(table.columns[6].column == Column::SecretToken);
}

proof fn lemma_chunk_columns(table: Table)
    requires
        table.columns == chunk_columns(),
    ensures
        forall|c: Column| #[trigger]
            has_column(table, c) <==> c is SessionId || c is Idx || c is ByteLen || c is Sha256Hex
                || c is FilePath || c is CreatedAt,
        forall|c: Column, t: Seq<char>|
            c is SessionId || c is Sha256Hex || c is FilePath || c is CreatedAt ==> #[trigger] suits(
                table,
                c,
                Value::Text(t),
            ),
        forall|c: Column, n: i64|
            c is Idx || c is ByteLen ==> #[trigger] suits(table, c, Value::Integer(n)),
{
    assert(table.columns[0].column == Column::SessionId);
    assert(table.columns[1].column == Column::Idx);
    assert(table.columns[2].column == Column::ByteLen);
    assert(table.columns[3].column == Column::Sha256Hex);
    assert(table.columns[4].column == Column::FilePath);
    assert(table.columns[5].column == Column::CreatedAt);
}

/// What the declaration of the table of sessions says of a row.
proof fn lemma_session_row(db: Database, k: int)
    requires
        is_made(db),
        is_valid(db),
        db.tables[TableName::Sessions].rows.contains_key(k),
    ensures
        ({
            let row = db.tables[TableName::Sessions].rows[k];
            &&& row[Column::Id] is Text
            &&& row[Column::Status] is Text
            &&& row[Column::CreatedAt] is Text
            &&& !(row[Column::MimeType] is Integer)
            &&& !(row[Column::CompletedAt] is Integer)
            &&& !(row[Column::OutputPath] is Integer)
            &&& !(row[Column::SecretToken] is Integer)
        }),
{
    let table = db.tables[TableName::Sessions];
    assert(table.columns[1].column == Column::Status);
    assert(table.columns[2].column == Column::MimeType);
    assert(table.columns[3].column == Column::CreatedAt);
    assert(table.columns[4].column == Column::CompletedAt);
    assert(table.columns[5].column == Column::OutputPath);
    assert(table.columns[6].column == Column::SecretToken);
}

/// What the declaration of the table of chunks says of a row.
proof fn lemma_chunk_row(db: Database, k: int)
    requires
        is_made(db),
        is_valid(db),
        db.tables[TableName::Chunks].rows.contains_key(k),
    ensures
        ({
            let row = db.tables[TableName::Chunks].rows[k];
            &&& row[Column::SessionId] is Text
            &&& row[Column::Idx] is Integer
            &&& row[Column::ByteLen] is Integer
            &&& row[Column::Sha256Hex] is Text
            &&& row[Column::FilePath] is Text
            &&& row[Column::CreatedAt] is Text
        }),
{
    let table = db.tables[TableName::Chunks];
    assert(table.columns[0].column == Column::SessionId);
    assert(table.columns[1].column == Column::Idx);
    assert(table.columns[2].column == Column::ByteLen);
    assert(table.columns[3].column == Column::Sha256Hex);
    assert(table.columns[4].column == Column::FilePath);
    assert(table.columns[5].column == Column::CreatedAt);
}

/// The constraints of the tables keep ids, tokens and chunks distinct.
proof fn lemma_held_is_consistent(db: Database)
    requires
        is_made(db),
        is_valid(db),
    ensures
        consistent(held(db)),
        is_complete(held(db)),
{
    let sessions = db.tables[TableName::Sessions];
    let chunks = db.tables[TableName::Chunks];
    let rows = session_rows(held(db));
    assert forall|a: int, b: int| #[trigger]
        rows.contains_key(a) && #[trigger] rows.contains_key(b) && a != b implies (rows[a].id is Some
        ==> rows[a].id != rows[b].id) && (rows[a].secret_token is Some ==> rows[a].secret_token
        != rows[b].secret_token) by {
        lemma_session_row(db, a);
        lemma_session_row(db, b);
        assert(sessions.unique[0] == seq![Column::Id]);
        assert(sessions.unique[1] == seq![Column::SecretToken]);
        assert(!agree(sessions.rows[a], sessions.rows[b], sessions.unique[0]));
        assert(!agree(sessions.rows[a], sessions.rows[b], sessions.unique[1]));
    }
    let listed = chunk_rows(held(db));
    assert forall|a: int, b: int| #[trigger]
        listed.contains_key(a) && #[trigger] listed.contains_key(b) && a != b implies (
    listed[a].session_id != listed[b].session_id || listed[a].idx != listed[b].idx) by {
        lemma_chunk_row(db, a);
        lemma_chunk_row(db, b);
        assert(chunks.unique[0] == seq![Column::SessionId, Column::Idx]);
        assert(!agree(chunks.rows[a], chunks.rows[b], chunks.unique[0]));
    }
}

/// What is bound for a query.
proof fn lemma_bound_values(query: QueryView)
    ensures
        bound_values(query).len() == query.binds().len(),
        forall|i: int|
            0 <= i < query.binds().len() ==> #[trigger] bound_values(query)[i] == bound(
                query.binds()[i],
            ),
{
}

/// Every query is understood in a database with the server's tables.
pub proof fn law_every_query_is_understood(db: Database, query: QueryView)
    requires
        is_made(db),
    ensures
        is_understood(db, statement(query), bound_values(query)),
{
    let binds = bound_values(query);
    let s = statement(query);
    lemma_bound_values(query);
    lemma_session_columns(db.tables[TableName::Sessions]);
    lemma_chunk_columns(db.tables[TableName::Chunks]);
    reveal_with_fuel(bound_below, 6);
    match query {
        QueryView::InsertSession { .. } => {
            let terms = s->Insert_terms;
            assert(bound_below(terms, 4) == 3);
        },
        QueryView::InsertChunk { .. } => {
            let terms = s->Insert_terms;
            assert(bound_below(terms, 5) == 5);
        },
        QueryView::FinalizeSession { output_path, id } => {
            let terms = s->Update_terms;
            let table = db.tables[TableName::Sessions];
            assert(bound_below(terms, 3) == 1);
            assert(binds.skip(1) =~= seq![Value::Text(id)]);
            assert forall|j: int, u: int|
                0 <= j < s->Update_columns.len() && 0 <= u < table.unique.len() implies !(
            #[trigger] table.unique[u]).contains(#[trigger] s->Update_columns[j]) by {
                assert(table.unique[0] == seq![Column::Id]);
                assert(table.unique[1] == seq![Column::SecretToken]);
            }
        },
        _ => {},
    }
}

/// A row that an insertion of a session makes.
spec fn new_session_row(query: QueryView) -> Row {
    Map::new(
        |c: Column|
            c is Id || c is Status || c is MimeType || c is CreatedAt || c is CompletedAt
                || c is OutputPath || c is SecretToken,
        |c: Column|
            match c {
                Column::Id => bound_values(query)[0],
                Column::Status => Value::Text("recording"@),
                Column::MimeType => bound_values(query)[1],
                Column::CreatedAt => Value::Text(seq![]),
                Column::SecretToken => bound_values(query)[2],
                _ => Value::Null,
            },
    )
}

/// A row that an insertion of a chunk makes.
spec fn new_chunk_row(query: QueryView) -> Row {
    Map::new(
        |c: Column|
            c is SessionId || c is Idx || c is ByteLen || c is Sha256Hex || c is FilePath
                || c is CreatedAt,
        |c: Column|
            match c {
                Column::SessionId => bound_values(query)[0],
                Column::Idx => bound_values(query)[1],
                Column::ByteLen => bound_values(query)[2],
                Column::Sha256Hex => bound_values(query)[3],
                Column::FilePath => bound_values(query)[4],
                _ => Value::Text(seq![]),
            },
    )
}

/// What a row holds that an insertion of a session makes.
proof fn lemma_made_session_row(db: Database, query: QueryView, row: Row)
    requires
        is_made(db),
        query is InsertSession,
        is_made_row(
            db.tables[TableName::Sessions],
            statement(query)->Insert_columns,
            statement(query)->Insert_terms,
            bound_values(query),
            row,
        ),
    ensures
        query matches QueryView::InsertSession { id, mime_type, secret_token } ==> {
            &&& row[Column::Id] == Value::Text(id)
            &&& row[Column::Status] == Value::Text("recording"@)
            &&& text_in(row[Column::MimeType]) == mime_type
            &&& !(row[Column::MimeType] is Integer)
            &&& row[Column::CreatedAt] is Text
            &&& row[Column::CompletedAt] == Value::Null
            &&& row[Column::OutputPath] == Value::Null
            &&& row[Column::SecretToken] == Value::Text(secret_token)
        },
{
    let table = db.tables[TableName::Sessions];
    let columns = statement(query)->Insert_columns;
    let terms = statement(query)->Insert_terms;
    lemma_bound_values(query);
    reveal_with_fuel(bound_below, 6);
    assert(columns[0] == Column::Id && columns[1] == Column::Status && columns[2]
        == Column::MimeType && columns[3] == Column::SecretToken);
    assert(is_value_of(terms, 0, bound_values(query), row[columns[0]]));
    assert(is_value_of(terms, 1, bound_values(query), row[columns[1]]));
    assert(is_value_of(terms, 2, bound_values(query), row[columns[2]]));
    assert(is_value_of(terms, 3, bound_values(query), row[columns[3]]));
    assert(table.columns[3].column == Column::CreatedAt);
    assert(table.columns[4].column == Column::CompletedAt);
    assert(table.columns[5].column == Column::OutputPath);
    assert forall|c: Column| columns.contains(c) implies c is Id || c is Status || c is MimeType
        || c is SecretToken by {}
}

/// What a row holds that an insertion of a chunk makes.
proof fn lemma_made_chunk_row(db: Database, query: QueryView, row: Row)
    requires
        is_made(db),
        query is InsertChunk,
        is_made_row(
            db.tables[TableName::Chunks],
            statement(query)->Insert_columns,
            statement(query)->Insert_terms,
            bound_values(query),
            row,
        ),
    ensures
        query matches QueryView::InsertChunk { session_id, idx, byte_len, sha256_hex, file_path }
            ==> {
            &&& row[Column::SessionId] == Value::Text(session_id)
            &&& row[Column::Idx] == Value::Integer(idx)
            &&& row[Column::ByteLen] == Value::Integer(byte_len)
            &&& row[Column::Sha256Hex] == Value::Text(sha256_hex)
            &&& row[Column::FilePath] == Value::Text(file_path)
            &&& row[Column::CreatedAt] is Text
        },
{
    let table = db.tables[TableName::Chunks];
    let columns = statement(query)->Insert_columns;
    let terms = statement(query)->Insert_terms;
    lemma_bound_values(query);
    reveal_with_fuel(bound_below, 6);
    assert(columns[0] == Column::SessionId && columns[1] == Column::Idx && columns[2]
        == Column::ByteLen && columns[3] == Column::Sha256Hex && columns[4] == Column::FilePath);
    assert(is_value_of(terms, 0, bound_values(query), row[columns[0]]));
    assert(is_value_of(terms, 1, bound_values(query), row[columns[1]]));
    assert(is_value_of(terms, 2, bound_values(query), row[columns[2]]));
    assert(is_value_of(terms, 3, bound_values(query), row[columns[3]]));
    assert(is_value_of(terms, 4, bound_values(query), row[columns[4]]));
    assert(table.columns[5].column == Column::CreatedAt);
    assert forall|c: Column| columns.contains(c) implies !(c is CreatedAt) by {}
}

/// Whether the table of sessions admits a new row depends on its id and its token alone.
proof fn lemma_session_row_is_admitted(db: Database, query: QueryView, row: Row)
    requires
        is_made(db),
        is_valid(db),
        query is InsertSession,
        is_made_row(
            db.tables[TableName::Sessions],
            statement(query)->Insert_columns,
            statement(query)->Insert_terms,
            bound_values(query),
            row,
        ),
    ensures
        query matches QueryView::InsertSession { id, secret_token, .. } ==> (admits(
            db.tables[TableName::Sessions],
            row,
        ) <==> takes_session(held(db), id, secret_token)),
{
    let table = db.tables[TableName::Sessions];
    lemma_made_session_row(db, query, row);
    assert(table.unique[0] == seq![Column::Id]);
    assert(table.unique[1] == seq![Column::SecretToken]);
    if let QueryView::InsertSession { id, secret_token, .. } = query {
        if admits(table, row) {
            assert forall|k: int| #[trigger] session_rows(held(db)).contains_key(k) implies
                session_rows(held(db))[k].id != Some(id) && session_rows(held(db))[k].secret_token
                != Some(secret_token) by {
                lemma_session_row(db, k);
                assert(!agree(row, table.rows[k], table.unique[0]));
                assert(!agree(row, table.rows[k], table.unique[1]));
            }
        }
        if takes_session(held(db), id, secret_token) {
            assert forall|u: int, k: int|
                0 <= u < table.unique.len() && table.rows.contains_key(k) implies !#[trigger] agree(
                row,
                table.rows[k],
                table.unique[u],
            ) by {
                assert(session_rows(held(db)).contains_key(k));
                assert(table.unique[u][0] == Column::Id || table.unique[u][0]
                    == Column::SecretToken);
            }
        }
    }
}

/// Whether the table of chunks admits a new row depends on its session and its index alone.
proof fn lemma_chunk_row_is_admitted(db: Database, query: QueryView, row: Row)
    requires
        is_made(db),
        is_valid(db),
        query is InsertChunk,
        is_made_row(
            db.tables[TableName::Chunks],
            statement(query)->Insert_columns,
            statement(query)->Insert_terms,
            bound_values(query),
            row,
        ),
    ensures
        query matches QueryView::InsertChunk { session_id, idx, .. } ==> (admits(
            db.tables[TableName::Chunks],
            row,
        ) <==> takes_chunk(held(db), session_id, idx)),
{
    let table = db.tables[TableName::Chunks];
    lemma_made_chunk_row(db, query, row);
    assert(table.unique[0] == seq![Column::SessionId, Column::Idx]);
    if let QueryView::InsertChunk { session_id, idx, .. } = query {
        if admits(table, row) {
            assert forall|k: int| #[trigger] chunk_rows(held(db)).contains_key(k) implies chunk_rows(
                held(db),
            )[k].session_id != session_id || chunk_rows(held(db))[k].idx != idx by {
                lemma_chunk_row(db, k);
                assert(!agree(row, table.rows[k], table.unique[0]));
            }
        }
        if takes_chunk(held(db), session_id, idx) {
            assert forall|u: int, k: int|
                0 <= u < table.unique.len() && table.rows.contains_key(k) implies !#[trigger] agree(
                row,
                table.rows[k],
                table.unique[u],
            ) by {
                assert(chunk_rows(held(db)).contains_key(k));
                assert(table.unique[u] == table.unique[0]);
                assert(table.unique[u][0] == Column::SessionId && table.unique[u][1]
                    == Column::Idx);
            }
        }
    }
}

/// A query is refused by the server's tables exactly where the model of the database says that it
/// has to fail: a session whose id or token is taken, and a chunk whose session and index are.
pub proof fn law_query_is_refused_where_it_must(db: Database, w: World, query: QueryView)
    requires
        is_made(db),
        is_valid(db),
        shows(held(db), w),
    ensures
        is_refused(db, statement(query), bound_values(query)) <==> query_must_fail(w, query),
{
    let columns = statement(query)->Insert_columns;
    let terms = statement(query)->Insert_terms;
    let binds = bound_values(query);
    lemma_bound_values(query);
    reveal_with_fuel(bound_below, 6);
    lemma_session_columns(db.tables[TableName::Sessions]);
    lemma_chunk_columns(db.tables[TableName::Chunks]);
    match query {
        QueryView::InsertSession { id, secret_token, .. } => {
            let table = db.tables[TableName::Sessions];
            let row = new_session_row(query);
            assert forall|i: int|
                0 <= i < table.columns.len() && !columns.contains(
                    (#[trigger] table.columns[i]).column,
                ) implies if table.columns[i].now {
                row[table.columns[i].column] is Text
            } else {
                row[table.columns[i].column] == Value::Null
            } by {
                assert(columns[0] == Column::Id && columns[1] == Column::Status && columns[2]
                    == Column::MimeType && columns[3] == Column::SecretToken);
                assert(columns.contains(columns[0]) && columns.contains(columns[1])
                    && columns.contains(columns[2]) && columns.contains(columns[3]));
            }
            assert(is_made_row(table, columns, terms, binds, row));
            lemma_session_row_is_admitted(db, query, row);
            lemma_session_is_taken(db, w, id, secret_token);
            assert forall|made: Row| #[trigger]
                is_made_row(table, columns, terms, binds, made) implies (admits(table, made)
                <==> takes_session(held(db), id, secret_token)) by {
                lemma_session_row_is_admitted(db, query, made);
            }
        },
        QueryView::InsertChunk { session_id, idx, .. } => {
            let table = db.tables[TableName::Chunks];
            let row = new_chunk_row(query);
            assert forall|i: int|
                0 <= i < table.columns.len() && !columns.contains(
                    (#[trigger] table.columns[i]).column,
                ) implies if table.columns[i].now {
                row[table.columns[i].column] is Text
            } else {
                row[table.columns[i].column] == Value::Null
            } by {
                assert(columns[0] == Column::SessionId && columns[1] == Column::Idx && columns[2]
                    == Column::ByteLen && columns[3] == Column::Sha256Hex && columns[4]
                    == Column::FilePath);
                assert(columns.contains(columns[0]) && columns.contains(columns[1])
                    && columns.contains(columns[2]) && columns.contains(columns[3])
                    && columns.contains(columns[4]));
            }
            assert(is_made_row(table, columns, terms, binds, row));
            lemma_chunk_row_is_admitted(db, query, row);
            lemma_chunk_is_taken(db, w, session_id, idx);
            assert forall|made: Row| #[trigger]
                is_made_row(table, columns, terms, binds, made) implies (admits(table, made)
                <==> takes_chunk(held(db), session_id, idx)) by {
                lemma_chunk_row_is_admitted(db, query, made);
            }
        },
        _ => {},
    }
}

proof fn lemma_session_is_taken(db: Database, w: World, id: Seq<char>, secret_token: Seq<char>)
    requires
        is_made(db),
        is_valid(db),
        shows(held(db), w),
    ensures
        takes_session(held(db), id, secret_token) <==> !w.sessions.contains_key(id) && !opens_some(
            w,
            secret_token,
        ),
{
    let rows = session_rows(held(db));
    if takes_session(held(db), id, secret_token) {
        assert forall|other: Seq<char>| !opens(w, secret_token, other) by {
            if opens(w, secret_token, other) {
                let k = choose|k: int| #[trigger]
                    rows.contains_key(k) && rows[k].id == Some(other);
                assert(w.sessions[other] == row_as_read(rows[k]));
            }
        }
    } else {
        let k = choose|k: int| #[trigger]
            rows.contains_key(k) && !(rows[k].id != Some(id) && rows[k].secret_token != Some(
                secret_token,
            ));
        lemma_session_row(db, k);
        let other = rows[k].id->0;
        assert(w.sessions.contains_key(other));
        if rows[k].id != Some(id) {
            assert(opens(w, secret_token, other));
        }
    }
}

proof fn lemma_chunk_is_taken(db: Database, w: World, session_id: Seq<char>, idx: i64)
    requires
        is_made(db),
        is_valid(db),
        shows(held(db), w),
    ensures
        takes_chunk(held(db), session_id, idx) <==> !w.chunks.contains_key((session_id, idx)),
{
    let rows = chunk_rows(held(db));
    if !takes_chunk(held(db), session_id, idx) {
        let k = choose|k: int| #[trigger]
            rows.contains_key(k) && rows[k].session_id == session_id && rows[k].idx == idx;
        assert(rows.contains_key(k));
    }
}

/// A row that is added to a table that admits it leaves the table valid.
proof fn lemma_insert_stays_valid(table: Table, k: int, row: Row)
    requires
        is_valid_table(table),
        !table.rows.contains_key(k),
        admits(table, row),
        forall|c: Column| #[trigger] row.contains_key(c) <==> has_column(table, c),
        forall|i: int|
            0 <= i < table.columns.len() ==> fits(
                row[(#[trigger] table.columns[i]).column],
                table.columns[i].kind,
            ),
    ensures
        is_valid_table(Table { rows: table.rows.insert(k, row), ..table }),
{
    let after = Table { rows: table.rows.insert(k, row), ..table };
    assert forall|a: int, b: int, u: int|
        0 <= u < after.unique.len() && after.rows.contains_key(a) && after.rows.contains_key(b) && a
            != b implies !#[trigger] agree(after.rows[a], after.rows[b], after.unique[u]) by {
        if a == k {
            assert(!agree(row, table.rows[b], table.unique[u]));
        } else if b == k {
            assert(!agree(row, table.rows[a], table.unique[u]));
            if agree(after.rows[a], row, table.unique[u]) {
                assert forall|i: int| 0 <= i < table.unique[u].len() implies row[#[trigger] table.unique[u][i]]
                    != Value::Null && row[table.unique[u][i]] == table.rows[a][table.unique[u][i]] by {
                    assert(after.rows[a][table.unique[u][i]] == row[table.unique[u][i]]);
                }
            }
        } else {
            assert(!agree(table.rows[a], table.rows[b], table.unique[u]));
        }
    }
    assert forall|c: Column| has_column(after, c) == has_column(table, c) by {
        if has_column(after, c) {
            let i = choose|i: int|
                0 <= i < after.columns.len() && (#[trigger] after.columns[i]).column == c;
            assert(table.columns[i].column == c);
        }
        if has_column(table, c) {
            let i = choose|i: int|
                0 <= i < table.columns.len() && (#[trigger] table.columns[i]).column == c;
            assert(after.columns[i].column == c);
        }
    }
}

/// Rows that are taken out of a table leave it valid.
proof fn lemma_fewer_rows_stay_valid(table: Table, kept: Map<int, Row>)
    requires
        is_valid_table(table),
        forall|k: int| #[trigger]
            kept.contains_key(k) ==> table.rows.contains_key(k) && kept[k] == table.rows[k],
    ensures
        is_valid_table(Table { rows: kept, ..table }),
{
    let after = Table { rows: kept, ..table };
    assert forall|c: Column| has_column(after, c) == has_column(table, c) by {
        if has_column(after, c) {
            let i = choose|i: int|
                0 <= i < after.columns.len() && (#[trigger] after.columns[i]).column == c;
            assert(table.columns[i].column == c);
        }
        if has_column(table, c) {
            let i = choose|i: int|
                0 <= i < table.columns.len() && (#[trigger] table.columns[i]).column == c;
            assert(after.columns[i].column == c);
        }
    }
}

proof fn lemma_insert_session_does(
    db: Database,
    query: QueryView,
    result: Seq<Seq<Value>>,
    after: Database,
)
    requires
        is_made(db),
        is_valid(db),
        query is InsertSession,
        does(db, statement(query), bound_values(query), result, after),
    ensures
        changes_rows(held(db), query, held(after)),
        is_made(after),
        is_valid(after),
{
    let table = db.tables[TableName::Sessions];
    let columns = statement(query)->Insert_columns;
    let terms = statement(query)->Insert_terms;
    let (k, row) = choose|k: int, row: Row|
        {
            &&& !table.rows.contains_key(k)
            &&& #[trigger] is_made_row(table, columns, terms, bound_values(query), row)
            &&& admits(table, row)
            &&& after == with_rows(db, TableName::Sessions, #[trigger] table.rows.insert(k, row))
        };
    lemma_made_session_row(db, query, row);
    lemma_session_row_is_admitted(db, query, row);
    lemma_insert_stays_valid(table, k, row);
    assert(session_rows(held(after)) =~= session_rows(held(db)).insert(k, session_in(row)));
    assert(held(after).chunks == held(db).chunks);
}

proof fn lemma_insert_chunk_does(
    db: Database,
    query: QueryView,
    result: Seq<Seq<Value>>,
    after: Database,
)
    requires
        is_made(db),
        is_valid(db),
        query is InsertChunk,
        does(db, statement(query), bound_values(query), result, after),
    ensures
        changes_rows(held(db), query, held(after)),
        is_made(after),
        is_valid(after),
{
    let table = db.tables[TableName::Chunks];
    let columns = statement(query)->Insert_columns;
    let terms = statement(query)->Insert_terms;
    let (k, row) = choose|k: int, row: Row|
        {
            &&& !table.rows.contains_key(k)
            &&& #[trigger] is_made_row(table, columns, terms, bound_values(query), row)
            &&& admits(table, row)
            &&& after == with_rows(db, TableName::Chunks, #[trigger] table.rows.insert(k, row))
        };
    lemma_made_chunk_row(db, query, row);
    lemma_chunk_row_is_admitted(db, query, row);
    lemma_insert_stays_valid(table, k, row);
    assert(chunk_rows(held(after)) =~= chunk_rows(held(db)).insert(k, chunk_in(row)));
    assert(held(after).sessions == held(db).sessions);
}

proof fn lemma_finalize_does(
    db: Database,
    query: QueryView,
    result: Seq<Seq<Value>>,
    after: Database,
)
    requires
        is_made(db),
        is_valid(db),
        query is FinalizeSession,
        does(db, statement(query), bound_values(query), result, after),
    ensures
        changes_rows(held(db), query, held(after)),
        is_made(after),
        is_valid(after),
{
    let table = db.tables[TableName::Sessions];
    let rows = table.rows;
    let kept = after.tables[TableName::Sessions].rows;
    let columns = statement(query)->Update_columns;
    let terms = statement(query)->Update_terms;
    let binds = bound_values(query);
    lemma_bound_values(query);
    reveal_with_fuel(bound_below, 6);
    assert(bound_below(terms, 3) == 1);
    lemma_session_columns(table);
    if let QueryView::FinalizeSession { output_path, id } = query {
        let values = binds.skip(1);
        assert(values =~= seq![Value::Text(id)]);
        assert(columns[0] == Column::Status && columns[1] == Column::CompletedAt && columns[2]
            == Column::OutputPath);
        assert forall|c: Column| columns.contains(c) implies c is Status || c is CompletedAt
            || c is OutputPath by {}
        assert forall|k: int| #[trigger] rows.contains_key(k) implies {
            &&& kept.contains_key(k)
            &&& kept[k][Column::Id] == rows[k][Column::Id]
            &&& kept[k][Column::MimeType] == rows[k][Column::MimeType]
            &&& kept[k][Column::CreatedAt] == rows[k][Column::CreatedAt]
            &&& kept[k][Column::SecretToken] == rows[k][Column::SecretToken]
            &&& forall|c: Column| #[trigger] kept[k].contains_key(c) <==> rows[k].contains_key(c)
            &&& if rows[k][Column::Id] == Value::Text(id) {
                &&& kept[k][Column::Status] == Value::Text("finalized"@)
                &&& kept[k][Column::CompletedAt] is Text
                &&& kept[k][Column::OutputPath] == Value::Text(output_path)
            } else {
                kept[k] == rows[k]
            }
        } by {
            assert(meets(rows[k], seq![Column::Id], values) <==> rows[k][Column::Id]
                == Value::Text(id)) by {
                assert(seq![Column::Id][0] == Column::Id);
            }
            if rows[k][Column::Id] == Value::Text(id) {
                assert(is_value_of(terms, 0, binds, kept[k][columns[0]]));
                assert(is_value_of(terms, 1, binds, kept[k][columns[1]]));
                assert(is_value_of(terms, 2, binds, kept[k][columns[2]]));
            }
        }
        assert forall|k: int| #[trigger] kept.contains_key(k) implies rows.contains_key(k) by {}
        let finished = Table { rows: kept, ..table };
        assert(finished.columns == table.columns);
        lemma_session_columns(finished);
        assert forall|k: int, i: int|
            0 <= i < finished.columns.len() && finished.rows.contains_key(k) implies fits(
            #[trigger] finished.rows[k][(#[trigger] finished.columns[i]).column],
            finished.columns[i].kind,
        ) && (finished.columns[i].not_null ==> finished.rows[k][finished.columns[i].column]
            != Value::Null) by {
            lemma_session_row(db, k);
            assert(rows.contains_key(k));
        }
        assert forall|a: int, b: int, u: int|
            0 <= u < finished.unique.len() && finished.rows.contains_key(a)
                && finished.rows.contains_key(b) && a != b implies !#[trigger] agree(
            finished.rows[a],
            finished.rows[b],
            finished.unique[u],
        ) by {
            assert(rows.contains_key(a) && rows.contains_key(b));
            assert(table.unique[0] == seq![Column::Id]);
            assert(table.unique[1] == seq![Column::SecretToken]);
            assert(!agree(rows[a], rows[b], table.unique[u]));
        }
        assert(is_valid_table(finished));
        assert forall|k: int| #[trigger] session_rows(held(db)).contains_key(k) implies if session_rows(
            held(db),
        )[k].id == Some(id) {
            &&& session_rows(held(after))[k].completed_at is Some
            &&& session_rows(held(after))[k] == (StoredSession {
                status: "finalized"@,
                completed_at: session_rows(held(after))[k].completed_at,
                output_path: Some(output_path),
                ..session_rows(held(db))[k]
            })
        } else {
            session_rows(held(after))[k] == session_rows(held(db))[k]
        } by {
            lemma_session_row(db, k);
            assert(rows.contains_key(k));
        }
        assert forall|k: int| session_rows(held(after)).contains_key(k) == #[trigger] session_rows(
            held(db),
        ).contains_key(k) by {
            assert(rows.contains_key(k) == kept.contains_key(k));
        }
    }
}

proof fn lemma_delete_does(
    db: Database,
    query: QueryView,
    result: Seq<Seq<Value>>,
    after: Database,
)
    requires
        is_made(db),
        is_valid(db),
        query is DeleteChunks || query is DeleteSession,
        does(db, statement(query), bound_values(query), result, after),
    ensures
        changes_rows(held(db), query, held(after)),
        is_made(after),
        is_valid(after),
{
    lemma_bound_values(query);
    let binds = bound_values(query);
    match query {
        QueryView::DeleteChunks { session_id } => {
            let table = db.tables[TableName::Chunks];
            let kept = after.tables[TableName::Chunks].rows;
            assert forall|k: int| table.rows.contains_key(k) implies (meets(
                #[trigger] table.rows[k],
                seq![Column::SessionId],
                binds,
            ) <==> chunk_in(table.rows[k]).session_id == session_id) by {
                lemma_chunk_row(db, k);
                assert(seq![Column::SessionId][0] == Column::SessionId);
                assert(binds[0] == Value::Text(session_id));
            }
            lemma_fewer_rows_stay_valid(table, kept);
            assert forall|k: int| #[trigger] chunk_rows(held(after)).contains_key(k) <==> chunk_rows(
                held(db),
            ).contains_key(k) && chunk_rows(held(db))[k].session_id != session_id by {
                assert(kept.contains_key(k) <==> table.rows.contains_key(k) && !meets(
                    table.rows[k],
                    seq![Column::SessionId],
                    binds,
                ));
            }
        },
        QueryView::DeleteSession { id } => {
            let table = db.tables[TableName::Sessions];
            let kept = after.tables[TableName::Sessions].rows;
            assert forall|k: int| table.rows.contains_key(k) implies (meets(
                #[trigger] table.rows[k],
                seq![Column::Id],
                binds,
            ) <==> session_in(table.rows[k]).id == Some(id)) by {
                lemma_session_row(db, k);
                assert(seq![Column::Id][0] == Column::Id);
                assert(binds[0] == Value::Text(id));
            }
            lemma_fewer_rows_stay_valid(table, kept);
            assert forall|k: int| #[trigger] session_rows(held(after)).contains_key(k)
                <==> session_rows(held(db)).contains_key(k) && session_rows(held(db))[k].id != Some(
                id,
            ) by {
                assert(kept.contains_key(k) <==> table.rows.contains_key(k) && !meets(
                    table.rows[k],
                    seq![Column::Id],
                    binds,
                ));
            }
        },
        _ => {},
    }
}

/// A lookup in the table of sessions by a column that is unique, where `value` is bound: it gives
/// the one row that has the value there, or none where there is none.
proof fn lemma_session_lookup(
    db: Database,
    w: World,
    query: QueryView,
    column: Column,
    value: Seq<char>,
    result: Seq<Seq<Value>>,
    after: Database,
) -> (found: Option<int>)
    requires
        is_made(db),
        is_valid(db),
        shows(held(db), w),
        statement(query) is Select,
        statement(query)->Select_table == TableName::Sessions,
        statement(query)->Select_conditions == seq![column],
        bound_values(query) == seq![Value::Text(value)],
        column is Id || column is SecretToken,
        does(db, statement(query), bound_values(query), result, after),
    ensures
        after == db,
        match found {
            Some(k) => {
                let row = db.tables[TableName::Sessions].rows[k];
                &&& db.tables[TableName::Sessions].rows.contains_key(k)
                &&& row[column] == Value::Text(value)
                &&& result.len() > 0
                &&& result[0] == projected(row, columns_of(statement(query)))
                &&& row[Column::Id] is Text
                &&& w.sessions.contains_key(text_in(row[Column::Id])->0)
                &&& w.sessions[text_in(row[Column::Id])->0] == row_as_read(session_in(row))
            },
            None => {
                &&& result.len() == 0
                &&& column is Id ==> !w.sessions.contains_key(value)
                &&& column is SecretToken ==> !opens_some(w, value)
            },
        },
{
    let table = db.tables[TableName::Sessions];
    let columns = columns_of(statement(query));
    let binds = bound_values(query);
    let conditions = seq![column];
    let keys = choose|keys: Seq<int>| #[trigger]
        selects(table, conditions, binds, None, keys) && result == Seq::new(
            keys.len(),
            |i: int| projected(table.rows[keys[i]], columns),
        );
    let rows = session_rows(held(db));
    assert(conditions[0] == column);
    if keys.len() > 0 {
        let k = keys[0];
        assert(meets(table.rows[k], conditions, binds));
        assert(table.rows[k][conditions[0]] == binds[0]);
        lemma_session_row(db, k);
        assert(rows.contains_key(k));
        Some(k)
    } else {
        if column is Id && w.sessions.contains_key(value) {
            let k = choose|k: int| #[trigger] rows.contains_key(k) && rows[k].id == Some(value);
            lemma_session_row(db, k);
            assert(table.rows.contains_key(k));
            assert(meets(table.rows[k], conditions, binds));
            assert(keys.contains(k));
        }
        if column is SecretToken {
            assert forall|id: Seq<char>| !opens(w, value, id) by {
                if opens(w, value, id) {
                    let k = choose|k: int| #[trigger]
                        rows.contains_key(k) && rows[k].id == Some(id);
                    lemma_session_row(db, k);
                    assert(w.sessions[id] == row_as_read(rows[k]));
                    assert(table.rows.contains_key(k));
                    assert(meets(table.rows[k], conditions, binds));
                    assert(keys.contains(k));
                }
            }
        }
        None
    }
}

proof fn lemma_session_selects_do(
    db: Database,
    w: World,
    query: QueryView,
    result: Seq<Seq<Value>>,
    after: Database,
)
    requires
        is_made(db),
        is_valid(db),
        shows(held(db), w),
        query is SessionById || query is SessionIdByToken || query is SecretTokenById
            || query is OutputPathById || query is RecordingByToken,
        does(db, statement(query), bound_values(query), result, after),
    ensures
        after == db,
        query_succeeds(w, query, reply_in(query, result), w),
{
    let table = db.tables[TableName::Sessions];
    let columns = columns_of(statement(query));
    lemma_bound_values(query);
    match query {
        QueryView::SessionById { id } => {
            assert(bound_values(query) =~= seq![Value::Text(id)]);
            let found = lemma_session_lookup(db, w, query, Column::Id, id, result, after);
            assert(columns[0] == Column::Id && columns[1] == Column::Status && columns[2]
                == Column::MimeType && columns[3] == Column::CreatedAt && columns[4]
                == Column::CompletedAt && columns[5] == Column::OutputPath && columns[6]
                == Column::SecretToken);
            if let Some(k) = found {
                let row = table.rows[k];
                assert forall|c: Column| has_column(table, c) implies #[trigger] under(
                    columns,
                    result[0],
                    c,
                ) == row[c] by {
                    lemma_session_columns(table);
                    let i = choose|i: int| 0 <= i < columns.len() && columns[i] == c;
                    assert(result[0][i] == row[columns[i]]);
                }
                lemma_session_columns(table);
            }
        },
        QueryView::SessionIdByToken { token } => {
            assert(bound_values(query) =~= seq![Value::Text(token)]);
            let found = lemma_session_lookup(
                db,
                w,
                query,
                Column::SecretToken,
                token,
                result,
                after,
            );
        },
        QueryView::SecretTokenById { id } => {
            assert(bound_values(query) =~= seq![Value::Text(id)]);
            let found = lemma_session_lookup(db, w, query, Column::Id, id, result, after);
        },
        QueryView::OutputPathById { id } => {
            assert(bound_values(query) =~= seq![Value::Text(id)]);
            let found = lemma_session_lookup(db, w, query, Column::Id, id, result, after);
        },
        QueryView::RecordingByToken { token } => {
            assert(bound_values(query) =~= seq![Value::Text(token)]);
            let found = lemma_session_lookup(
                db,
                w,
                query,
                Column::SecretToken,
                token,
                result,
                after,
            );
        },
        _ => {},
    }
}

/// A row of a chunk is what the world shows of the chunk.
proof fn lemma_shown_chunk(db: Database, w: World, k: int)
    requires
        is_made(db),
        is_valid(db),
        shows(held(db), w),
        db.tables[TableName::Chunks].rows.contains_key(k),
    ensures
        ({
            let row = db.tables[TableName::Chunks].rows[k];
            let key = (text_in(row[Column::SessionId])->0, number_in(row[Column::Idx]));
            &&& w.chunks.contains_key(key)
            &&& row[Column::Sha256Hex] == Value::Text(w.chunks[key].sha256_hex)
            &&& row[Column::FilePath] == Value::Text(w.chunks[key].file_path)
        }),
{
    lemma_chunk_row(db, k);
    assert(chunk_rows(held(db)).contains_key(k));
}

/// The number of the row of a chunk.
proof fn lemma_row_of_chunk(db: Database, w: World, session_id: Seq<char>, idx: i64) -> (k: int)
    requires
        is_made(db),
        is_valid(db),
        shows(held(db), w),
        w.chunks.contains_key((session_id, idx)),
    ensures
        db.tables[TableName::Chunks].rows.contains_key(k),
        db.tables[TableName::Chunks].rows[k][Column::SessionId] == Value::Text(session_id),
        db.tables[TableName::Chunks].rows[k][Column::Idx] == Value::Integer(idx),
{
    let rows = chunk_rows(held(db));
    let k = choose|k: int| #[trigger]
        rows.contains_key(k) && rows[k].session_id == session_id && rows[k].idx == idx;
    lemma_chunk_row(db, k);
    k
}

proof fn lemma_digest_select_does(
    db: Database,
    w: World,
    query: QueryView,
    result: Seq<Seq<Value>>,
    after: Database,
)
    requires
        is_made(db),
        is_valid(db),
        shows(held(db), w),
        query is ChunkDigest,
        does(db, statement(query), bound_values(query), result, after),
    ensures
        after == db,
        query_succeeds(w, query, reply_in(query, result), w),
{
    let table = db.tables[TableName::Chunks];
    let binds = bound_values(query);
    let columns = columns_of(statement(query));
    let conditions = seq![Column::SessionId, Column::Idx];
    lemma_bound_values(query);
    if let QueryView::ChunkDigest { session_id, idx } = query {
        let keys = choose|keys: Seq<int>| #[trigger]
            selects(table, conditions, binds, None, keys) && result == Seq::new(
                keys.len(),
                |i: int| projected(table.rows[keys[i]], columns),
            );
        assert(conditions[0] == Column::SessionId && conditions[1] == Column::Idx);
        assert(binds[0] == Value::Text(session_id) && binds[1] == Value::Integer(idx));
        assert(columns[0] == Column::Sha256Hex);
        if keys.len() > 0 {
            let k = keys[0];
            assert(meets(table.rows[k], conditions, binds));
            assert(table.rows[k][conditions[0]] == binds[0]);
            assert(table.rows[k][conditions[1]] == binds[1]);
            lemma_shown_chunk(db, w, k);
            assert(result[0][0] == table.rows[k][Column::Sha256Hex]);
        } else if w.chunks.contains_key((session_id, idx)) {
            let k = lemma_row_of_chunk(db, w, session_id, idx);
            assert(meets(table.rows[k], conditions, binds));
            assert(keys.contains(k));
        }
    }
}

/// Whether `keys` are the numbers of the rows of a session's chunks, in the order in which a
/// selection gave them.
spec fn are_chunks_of(
    table: Table,
    w: World,
    session_id: Seq<char>,
    columns: Seq<Column>,
    result: Seq<Seq<Value>>,
    keys: Seq<int>,
) -> bool {
    &&& result.len() == keys.len()
    &&& forall|i: int|
        0 <= i < keys.len() ==> {
            let row = table.rows[#[trigger] keys[i]];
            &&& table.rows.contains_key(keys[i])
            &&& row[Column::SessionId] == Value::Text(session_id)
            &&& row[Column::Idx] is Integer
            &&& w.chunks.contains_key((session_id, number_in(row[Column::Idx])))
            &&& row[Column::FilePath] == Value::Text(
                w.chunks[(session_id, number_in(row[Column::Idx]))].file_path,
            )
            &&& result[i] == projected(row, columns)
        }
    &&& forall|i: int, j: int| 0 <= i < j < keys.len() ==> keys[i] != keys[j]
    &&& forall|idx: i64| #[trigger]
        w.chunks.contains_key((session_id, idx)) ==> exists|i: int|
            0 <= i < keys.len() && table.rows[#[trigger] keys[i]][Column::Idx] == Value::Integer(
                idx,
            )
}

/// Whether the rows come by ascending index.
spec fn ascend(table: Table, keys: Seq<int>) -> bool {
    forall|i: int, j: int|
        0 <= i < j < keys.len() ==> number_in(table.rows[#[trigger] keys[i]][Column::Idx])
            < number_in(table.rows[#[trigger] keys[j]][Column::Idx])
}

proof fn lemma_chunks_differ(db: Database, a: int, b: int)
    requires
        is_made(db),
        is_valid(db),
        db.tables[TableName::Chunks].rows.contains_key(a),
        db.tables[TableName::Chunks].rows.contains_key(b),
        a != b,
        db.tables[TableName::Chunks].rows[a][Column::SessionId]
            == db.tables[TableName::Chunks].rows[b][Column::SessionId],
    ensures
        db.tables[TableName::Chunks].rows[a][Column::Idx]
            != db.tables[TableName::Chunks].rows[b][Column::Idx],
        db.tables[TableName::Chunks].rows[a][Column::Idx] is Integer,
        db.tables[TableName::Chunks].rows[b][Column::Idx] is Integer,
{
    let table = db.tables[TableName::Chunks];
    lemma_chunk_row(db, a);
    lemma_chunk_row(db, b);
    assert(table.unique[0] == seq![Column::SessionId, Column::Idx]);
    assert(!agree(table.rows[a], table.rows[b], table.unique[0]));
}

proof fn lemma_chunk_selection(
    db: Database,
    w: World,
    query: QueryView,
    session_id: Seq<char>,
    result: Seq<Seq<Value>>,
    after: Database,
) -> (keys: Seq<int>)
    requires
        is_made(db),
        is_valid(db),
        shows(held(db), w),
        statement(query) is Select,
        statement(query)->Select_table == TableName::Chunks,
        statement(query)->Select_conditions == seq![Column::SessionId],
        bound_values(query) == seq![Value::Text(session_id)],
        does(db, statement(query), bound_values(query), result, after),
    ensures
        after == db,
        are_chunks_of(
            db.tables[TableName::Chunks],
            w,
            session_id,
            columns_of(statement(query)),
            result,
            keys,
        ),
        statement(query)->Select_order == Some(Column::Idx) ==> ascend(
            db.tables[TableName::Chunks],
            keys,
        ),
{
    let table = db.tables[TableName::Chunks];
    let binds = bound_values(query);
    let columns = columns_of(statement(query));
    let conditions = seq![Column::SessionId];
    let order = statement(query)->Select_order;
    let keys = choose|keys: Seq<int>| #[trigger]
        selects(table, conditions, binds, order, keys) && result == Seq::new(
            keys.len(),
            |i: int| projected(table.rows[keys[i]], columns),
        );
    assert(conditions[0] == Column::SessionId);
    assert(binds[0] == Value::Text(session_id));
    assert forall|i: int| 0 <= i < keys.len() implies {
        let row = table.rows[#[trigger] keys[i]];
        &&& table.rows.contains_key(keys[i])
        &&& row[Column::SessionId] == Value::Text(session_id)
        &&& row[Column::Idx] is Integer
        &&& w.chunks.contains_key((session_id, number_in(row[Column::Idx])))
        &&& row[Column::FilePath] == Value::Text(
            w.chunks[(session_id, number_in(row[Column::Idx]))].file_path,
        )
        &&& result[i] == projected(row, columns)
    } by {
        assert(meets(table.rows[keys[i]], conditions, binds));
        assert(table.rows[keys[i]][conditions[0]] == binds[0]);
        lemma_chunk_row(db, keys[i]);
        lemma_shown_chunk(db, w, keys[i]);
    }
    assert forall|idx: i64| #[trigger] w.chunks.contains_key((session_id, idx)) implies exists|
        i: int,
    |
        0 <= i < keys.len() && table.rows[#[trigger] keys[i]][Column::Idx] == Value::Integer(
            idx,
        ) by {
        let k = lemma_row_of_chunk(db, w, session_id, idx);
        assert(meets(table.rows[k], conditions, binds));
        assert(keys.contains(k));
        let i = choose|i: int| 0 <= i < keys.len() && keys[i] == k;
        assert(table.rows[keys[i]][Column::Idx] == Value::Integer(idx));
    }
    if order == Some(Column::Idx) {
        assert forall|i: int, j: int| 0 <= i < j < keys.len() implies number_in(
            table.rows[#[trigger] keys[i]][Column::Idx],
        ) < number_in(table.rows[#[trigger] keys[j]][Column::Idx]) by {
            lemma_chunks_differ(db, keys[i], keys[j]);
        }
    }
    keys
}

proof fn lemma_ordered_list_does(
    db: Database,
    w: World,
    query: QueryView,
    result: Seq<Seq<Value>>,
    after: Database,
)
    requires
        is_made(db),
        is_valid(db),
        shows(held(db), w),
        query is ChunksInOrder,
        does(db, statement(query), bound_values(query), result, after),
    ensures
        after == db,
        query_succeeds(w, query, reply_in(query, result), w),
{
    let table = db.tables[TableName::Chunks];
    let columns = columns_of(statement(query));
    let session_id = query->ChunksInOrder_session_id;
    lemma_bound_values(query);
    assert(bound_values(query) =~= seq![Value::Text(session_id)]);
    let keys = lemma_chunk_selection(db, w, query, session_id, result, after);
    let list = reply_in(query, result)->Chunks_0;
    assert(columns[0] == Column::Idx && columns[1] == Column::FilePath);
    assert forall|i: int| 0 <= i < list.len() implies (#[trigger] list[i]).idx == number_in(
        table.rows[keys[i]][Column::Idx],
    ) && Value::Text(list[i].file_path) == table.rows[keys[i]][Column::FilePath] by {
        assert(result[i][0] == table.rows[keys[i]][Column::Idx]);
        assert(result[i][1] == table.rows[keys[i]][Column::FilePath]);
    }
    assert forall|i: int, j: int| 0 <= i < j < list.len() implies list[i].idx < list[j].idx by {
        assert(number_in(table.rows[keys[i]][Column::Idx]) < number_in(
            table.rows[keys[j]][Column::Idx],
        ));
    }
    assert forall|idx: i64| #[trigger] w.chunks.contains_key((session_id, idx)) implies exists|
        i: int,
    | 0 <= i < list.len() && (#[trigger] list[i]).idx == idx by {
        let i = choose|i: int|
            0 <= i < keys.len() && table.rows[#[trigger] keys[i]][Column::Idx] == Value::Integer(
                idx,
            );
        assert(list[i].idx == idx);
    }
    assert(lists_in_order(w, session_id, list));
}

proof fn lemma_file_list_does(
    db: Database,
    w: World,
    query: QueryView,
    result: Seq<Seq<Value>>,
    after: Database,
)
    requires
        is_made(db),
        is_valid(db),
        shows(held(db), w),
        query is ChunkFiles,
        does(db, statement(query), bound_values(query), result, after),
    ensures
        after == db,
        query_succeeds(w, query, reply_in(query, result), w),
{
    let table = db.tables[TableName::Chunks];
    let columns = columns_of(statement(query));
    let session_id = query->ChunkFiles_session_id;
    lemma_bound_values(query);
    assert(bound_values(query) =~= seq![Value::Text(session_id)]);
    let keys = lemma_chunk_selection(db, w, query, session_id, result, after);
    let list = reply_in(query, result)->Paths_0;
    assert(columns[0] == Column::FilePath);
    assert forall|i: int| 0 <= i < list.len() implies Value::Text(#[trigger] list[i])
        == table.rows[keys[i]][Column::FilePath] by {
        assert(result[i][0] == table.rows[keys[i]][Column::FilePath]);
    }
    assert forall|i: int| 0 <= i < list.len() implies is_file_of_chunk(
        w,
        session_id,
        #[trigger] list[i],
    ) by {
        let idx = number_in(table.rows[keys[i]][Column::Idx]);
        assert(Value::Text(list[i]) == table.rows[keys[i]][Column::FilePath]);
        assert(w.chunks.contains_key((session_id, idx)) && w.chunks[(session_id, idx)].file_path
            == list[i]);
    }
    assert forall|idx: i64| #[trigger] w.chunks.contains_key((session_id, idx)) implies
        list.contains(w.chunks[(session_id, idx)].file_path) by {
        let i = choose|i: int|
            0 <= i < keys.len() && table.rows[#[trigger] keys[i]][Column::Idx] == Value::Integer(
                idx,
            );
        assert(list[i] == w.chunks[(session_id, idx)].file_path);
    }
    assert(lists_files(w, session_id, list));
}

/// The text of a query and the values bound for it, read as SQL over the server's tables, do what
/// the model of the database says of the query: in what they leave of the rows, in what they add or
/// change, and in what they reply. And the tables stay the server's.
pub proof fn law_query_does_what_the_model_says(
    db: Database,
    w: World,
    query: QueryView,
    result: Seq<Seq<Value>>,
    after: Database,
    next: World,
)
    requires
        is_made(db),
        is_valid(db),
        shows(held(db), w),
        does(db, statement(query), bound_values(query), result, after),
        shows(held(after), next),
        next == (World { sessions: next.sessions, chunks: next.chunks, ..w }),
    ensures
        reads(query.sql(), statement(query)),
        is_understood(db, statement(query), bound_values(query)),
        query_succeeds(w, query, reply_in(query, result), next),
        is_made(after),
        is_valid(after),
{
    law_every_query_is_read(query);
    law_every_query_is_understood(db, query);
    lemma_held_is_consistent(db);
    match query {
        QueryView::InsertSession { .. } => {
            lemma_insert_session_does(db, query, result, after);
        },
        QueryView::InsertChunk { .. } => {
            lemma_insert_chunk_does(db, query, result, after);
        },
        QueryView::FinalizeSession { .. } => {
            lemma_finalize_does(db, query, result, after);
        },
        QueryView::DeleteChunks { .. } => {
            lemma_delete_does(db, query, result, after);
        },
        QueryView::DeleteSession { .. } => {
            lemma_delete_does(db, query, result, after);
        },
        QueryView::ChunkDigest { .. } => {
            lemma_digest_select_does(db, w, query, result, after);
        },
        QueryView::ChunksInOrder { .. } => {
            lemma_ordered_list_does(db, w, query, result, after);
        },
        QueryView::ChunkFiles { .. } => {
            lemma_file_list_does(db, w, query, result, after);
        },
        _ => {
            lemma_session_selects_do(db, w, query, result, after);
        },
    }
    if is_change(query) {
        law_requests_rely_on_the_tables(held(db), w, query, held(after), next);
    } else {
        lemma_same_chunks(held(db), w, held(after), next);
        lemma_same_sessions(held(db), w, held(after), next);
    }
}

} // verus!
