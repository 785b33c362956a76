//! What the statements that bring the database up, read as SQL, make of it: the server's two
//! tables, out of an empty database or one of an earlier version.
use vstd::prelude::*;

use crate::config::ConfigView;
use crate::laws::startup::{can_be_indexed, stage_performs, SessionsTable, StoredSession, Tables};
use crate::laws::tables::{
    chunk_columns, chunk_in, held, is_chunks_table, is_made, is_valid_table, number_column,
    session_columns, session_in, text_column, time_column,
};
use crate::sql::{
    agree, column_text, columns_text, constraints, def_text, does, fits, has_column, has_duplicates,
    is_refused, is_understood, is_word, listed_with, reads, written, Column, ColumnDef, Database,
    Kind, Row, Statement, Table, TableName, Value,
};
use crate::startup::{action_at, Stage, StageActionView};

verus! {

/// The statement of a stage that has one.
pub open spec fn stage_statement(stage: Stage) -> Statement {
    match stage {
        Stage::SessionsTable => Statement::CreateTable {
            table: TableName::Sessions,
            defs: session_columns(true),
            key: seq![],
        },
        Stage::TokenColumn => Statement::AddColumn {
            table: TableName::Sessions,
            def: text_column(Column::SecretToken, false),
        },
        Stage::TokenIndex => Statement::CreateUniqueIndex {
            name: "idx_sessions_secret_token"@,
            table: TableName::Sessions,
            columns: seq![Column::SecretToken],
        },
        _ => Statement::CreateTable {
            table: TableName::Chunks,
            defs: chunk_columns(),
            key: seq![Column::SessionId, Column::Idx],
        },
    }
}

/// Whether a stage runs a statement.
pub open spec fn has_statement(stage: Stage) -> bool {
    stage is SessionsTable || stage is TokenColumn || stage is TokenIndex || stage is ChunksTable
}

/// The text that a stage runs.
pub open spec fn stage_text(config: ConfigView, stage: Stage) -> Seq<char> {
    action_at(config, stage)->0->sql
}

proof fn lemma_defs_are_written()
    ensures
        def_text(session_columns(true)[0]) == "id"@ + " TEXT"@ + " PRIMARY KEY"@,
        def_text(text_column(Column::Status, true)) == "status"@ + " TEXT"@ + " NOT NULL"@,
        def_text(text_column(Column::MimeType, false)) == "mime_type"@ + " TEXT"@,
        def_text(time_column()) == "created_at"@ + " TEXT"@ + " NOT NULL"@
            + " DEFAULT (datetime('now'))"@,
        def_text(text_column(Column::CompletedAt, false)) == "completed_at"@ + " TEXT"@,
        def_text(text_column(Column::OutputPath, false)) == "output_path"@ + " TEXT"@,
        def_text(text_column(Column::SecretToken, false)) == "secret_token"@ + " TEXT"@,
        def_text(text_column(Column::SessionId, true)) == "session_id"@ + " TEXT"@ + " NOT NULL"@,
        def_text(number_column(Column::Idx)) == "idx"@ + " INTEGER"@ + " NOT NULL"@,
        def_text(number_column(Column::ByteLen)) == "byte_len"@ + " INTEGER"@ + " NOT NULL"@,
        def_text(text_column(Column::Sha256Hex, true)) == "sha256_hex"@ + " TEXT"@ + " NOT NULL"@,
        def_text(text_column(Column::FilePath, true)) == "file_path"@ + " TEXT"@ + " NOT NULL"@,
{
    reveal_strlit("");
    assert(def_text(session_columns(true)[0]) =~= "id"@ + " TEXT"@ + " PRIMARY KEY"@);
    assert(def_text(text_column(Column::Status, true)) =~= "status"@ + " TEXT"@ + " NOT NULL"@);
    assert(def_text(text_column(Column::MimeType, false)) =~= "mime_type"@ + " TEXT"@);
    assert(def_text(time_column()) =~= "created_at"@ + " TEXT"@ + " NOT NULL"@
        + " DEFAULT (datetime('now'))"@);
    assert(def_text(text_column(Column::CompletedAt, false)) =~= "completed_at"@ + " TEXT"@);
    assert(def_text(text_column(Column::OutputPath, false)) =~= "output_path"@ + " TEXT"@);
    assert(def_text(text_column(Column::SecretToken, false)) =~= "secret_token"@ + " TEXT"@);
    assert(def_text(text_column(Column::SessionId, true)) =~= "session_id"@ + " TEXT"@
        + " NOT NULL"@);
    assert(def_text(number_column(Column::Idx)) =~= "idx"@ + " INTEGER"@ + " NOT NULL"@);
    assert(def_text(number_column(Column::ByteLen)) =~= "byte_len"@ + " INTEGER"@ + " NOT NULL"@);
    assert(def_text(text_column(Column::Sha256Hex, true)) =~= "sha256_hex"@ + " TEXT"@
        + " NOT NULL"@);
    assert(def_text(text_column(Column::FilePath, true)) =~= "file_path"@ + " TEXT"@
        + " NOT NULL"@);
}

proof fn lemma_sessions_table_is_read(config: ConfigView)
    ensures
        reads(stage_text(config, Stage::SessionsTable), stage_statement(Stage::SessionsTable)),
{
    lemma_defs_are_written();
    reveal_with_fuel(listed_with, 9);
    let defs = session_columns(true);
    assert(defs.map_values(|d: ColumnDef| def_text(d)) =~= seq![
        "id"@ + " TEXT"@ + " PRIMARY KEY"@,
        "status"@ + " TEXT"@ + " NOT NULL"@,
        "mime_type"@ + " TEXT"@,
        "created_at"@ + " TEXT"@ + " NOT NULL"@ + " DEFAULT (datetime('now'))"@,
        "completed_at"@ + " TEXT"@,
        "output_path"@ + " TEXT"@,
        "secret_token"@ + " TEXT"@,
    ]);
    let list = "id"@ + " TEXT"@ + " PRIMARY KEY"@ + ", "@ + ("status"@ + " TEXT"@ + " NOT NULL"@
        + ", "@ + ("mime_type"@ + " TEXT"@ + ", "@ + ("created_at"@ + " TEXT"@ + " NOT NULL"@
        + " DEFAULT (datetime('now'))"@ + ", "@ + ("completed_at"@ + " TEXT"@ + ", "@ + (
    "output_path"@ + " TEXT"@ + ", "@ + ("secret_token"@ + " TEXT"@))))));
    assert(listed_with(defs.map_values(|d: ColumnDef| def_text(d)), ", "@) == list);
    assert(stage_text(config, Stage::SessionsTable) =~= "CREATE TABLE IF NOT EXISTS "@
        + "sessions"@ + " ("@ + list + ""@ + ");"@) by {
        reveal_strlit("CREATE TABLE IF NOT EXISTS sessions (id TEXT PRIMARY KEY, status TEXT NOT NULL, mime_type TEXT, created_at TEXT NOT NULL DEFAULT (datetime('now')), completed_at TEXT, output_path TEXT, secret_token TEXT);");
        reveal_strlit("");
        reveal_strlit("CREATE TABLE IF NOT EXISTS ");
        reveal_strlit(" (");
        reveal_strlit(");");
        reveal_strlit(", ");
        reveal_strlit(" TEXT");
        reveal_strlit(" PRIMARY KEY");
        reveal_strlit(" NOT NULL");
        reveal_strlit(" DEFAULT (datetime('now'))");
        reveal_strlit("id");
        reveal_strlit("status");
        reveal_strlit("mime_type");
        reveal_strlit("created_at");
        reveal_strlit("completed_at");
        reveal_strlit("output_path");
        reveal_strlit("secret_token");
        reveal_strlit("sessions");
    }
}

proof fn lemma_chunks_table_is_read(config: ConfigView)
    ensures
        reads(stage_text(config, Stage::ChunksTable), stage_statement(Stage::ChunksTable)),
{
    lemma_defs_are_written();
    reveal_with_fuel(listed_with, 9);
    let defs = chunk_columns();
    let key = seq![Column::SessionId, Column::Idx];
    assert(defs.map_values(|d: ColumnDef| def_text(d)) =~= seq![
        "session_id"@ + " TEXT"@ + " NOT NULL"@,
        "idx"@ + " INTEGER"@ + " NOT NULL"@,
        "byte_len"@ + " INTEGER"@ + " NOT NULL"@,
        "sha256_hex"@ + " TEXT"@ + " NOT NULL"@,
        "file_path"@ + " TEXT"@ + " NOT NULL"@,
        "created_at"@ + " TEXT"@ + " NOT NULL"@ + " DEFAULT (datetime('now'))"@,
    ]);
    let list = "session_id"@ + " TEXT"@ + " NOT NULL"@ + ", "@ + ("idx"@ + " INTEGER"@
        + " NOT NULL"@ + ", "@ + ("byte_len"@ + " INTEGER"@ + " NOT NULL"@ + ", "@ + ("sha256_hex"@
        + " TEXT"@ + " NOT NULL"@ + ", "@ + ("file_path"@ + " TEXT"@ + " NOT NULL"@ + ", "@ + (
    "created_at"@ + " TEXT"@ + " NOT NULL"@ + " DEFAULT (datetime('now'))"@)))));
    assert(listed_with(defs.map_values(|d: ColumnDef| def_text(d)), ", "@) == list);
    assert(key.map_values(|c: Column| column_text(c)) =~= seq!["session_id"@, "idx"@]);
    assert(columns_text(key) == "session_id"@ + ", "@ + "idx"@);
    assert(stage_text(config, Stage::ChunksTable) =~= "CREATE TABLE IF NOT EXISTS "@ + "chunks"@
        + " ("@ + list + (", PRIMARY KEY ("@ + ("session_id"@ + ", "@ + "idx"@) + ")"@) + ");"@) by {
        reveal_strlit("CREATE TABLE IF NOT EXISTS chunks (session_id TEXT NOT NULL, idx INTEGER NOT NULL, byte_len INTEGER NOT NULL, sha256_hex TEXT NOT NULL, file_path TEXT NOT NULL, created_at TEXT NOT NULL DEFAULT (datetime('now')), PRIMARY KEY (session_id, idx));");
        reveal_strlit("CREATE TABLE IF NOT EXISTS ");
        reveal_strlit(" (");
        reveal_strlit(");");
        reveal_strlit(")");
        reveal_strlit(", ");
        reveal_strlit(", PRIMARY KEY (");
        reveal_strlit(" TEXT");
        reveal_strlit(" INTEGER");
        reveal_strlit(" NOT NULL");
        reveal_strlit(" DEFAULT (datetime('now'))");
        reveal_strlit("session_id");
        reveal_strlit("idx");
        reveal_strlit("byte_len");
        reveal_strlit("sha256_hex");
        reveal_strlit("file_path");
        reveal_strlit("created_at");
        reveal_strlit("chunks");
    }
}

proof fn lemma_token_stages_are_read(config: ConfigView, stage: Stage)
    requires
        stage is TokenColumn || stage is TokenIndex,
    ensures
        reads(stage_text(config, stage), stage_statement(stage)),
{
    lemma_defs_are_written();
    reveal_with_fuel(listed_with, 3);
    reveal_strlit("ALTER TABLE sessions ADD COLUMN secret_token TEXT");
    reveal_strlit("CREATE UNIQUE INDEX IF NOT EXISTS idx_sessions_secret_token ON sessions(secret_token)");
    reveal_strlit("ALTER TABLE ");
    reveal_strlit(" ADD COLUMN ");
    reveal_strlit(" TEXT");
    reveal_strlit("CREATE UNIQUE INDEX IF NOT EXISTS ");
    reveal_strlit("idx_sessions_secret_token");
    reveal_strlit(" ON ");
    reveal_strlit("(");
    reveal_strlit(")");
    reveal_strlit("sessions");
    reveal_strlit("secret_token");
    assert(seq![Column::SecretToken].map_values(|c: Column| column_text(c)) =~= seq![
        "secret_token"@,
    ]);
    assert(columns_text(seq![Column::SecretToken]) == "secret_token"@);
    if stage is TokenColumn {
        assert(stage_text(config, stage) =~= written(stage_statement(stage)));
    } else {
        assert(stage_text(config, stage) =~= written(stage_statement(stage)));
        assert(is_word("idx_sessions_secret_token"@));
    }
}

/// The text that each of these stages runs says a statement.
pub proof fn law_every_stage_is_read(config: ConfigView, stage: Stage)
    requires
        has_statement(stage),
    ensures
        action_at(config, stage) == Some(
            StageActionView::Execute { sql: stage_text(config, stage) },
        ),
        reads(stage_text(config, stage), stage_statement(stage)),
{
    match stage {
        Stage::SessionsTable => lemma_sessions_table_is_read(config),
        Stage::ChunksTable => lemma_chunks_table_is_read(config),
        _ => lemma_token_stages_are_read(config, stage),
    }
}

/// The constraints of the table of sessions, with or without the index of tokens.
pub open spec fn session_constraints(indexed: bool) -> Seq<Seq<Column>> {
    if indexed {
        seq![seq![Column::Id], seq![Column::SecretToken]]
    } else {
        seq![seq![Column::Id]]
    }
}

/// Whether a database holds nothing of the server's but what the server, or an earlier version of
/// it, made.
pub open spec fn is_of_server(db: Database) -> bool {
    let indexed = db.indexes.contains("idx_sessions_secret_token"@);
    &&& db.tables.contains_key(TableName::Sessions) ==> {
        let table = db.tables[TableName::Sessions];
        &&& table.columns == session_columns(true) || table.columns == session_columns(false)
        &&& table.unique == session_constraints(indexed)
        &&& is_valid_table(table)
    }
    &&& indexed ==> db.tables.contains_key(TableName::Sessions)
        && db.tables[TableName::Sessions].columns == session_columns(true)
    &&& db.tables.contains_key(TableName::Chunks) ==> is_chunks_table(
        db.tables[TableName::Chunks],
    ) && is_valid_table(db.tables[TableName::Chunks])
}

/// Whether the table of sessions has the column of tokens.
pub open spec fn has_token(db: Database) -> bool {
    db.tables[TableName::Sessions].columns == session_columns(true)
}

/// A row of the table of sessions, which has no token where there is no column for it.
pub open spec fn older_session_in(row: Row, with_token: bool) -> StoredSession {
    if with_token {
        session_in(row)
    } else {
        StoredSession { secret_token: None, ..session_in(row) }
    }
}

/// What a database holds of the server's.
pub open spec fn holding(db: Database) -> Tables {
    Tables {
        sessions: if db.tables.contains_key(TableName::Sessions) {
            Some(
                SessionsTable {
                    has_token: has_token(db),
                    rows: db.tables[TableName::Sessions].rows.map_values(
                        |row: Row| older_session_in(row, has_token(db)),
                    ),
                },
            )
        } else {
            None
        },
        token_index: db.indexes.contains("idx_sessions_secret_token"@),
        chunks: if db.tables.contains_key(TableName::Chunks) {
            Some(db.tables[TableName::Chunks].rows.map_values(|row: Row| chunk_in(row)))
        } else {
            None
        },
    }
}

proof fn lemma_token_column(table: Table)
    ensures
        table.columns == session_columns(true) ==> has_column(table, Column::SecretToken),
        table.columns == session_columns(false) ==> !has_column(table, Column::SecretToken),
        session_columns(true) != session_columns(false),
{
    assert(session_columns(true).len() == 7 && session_columns(false).len() == 6);
    if table.columns == session_columns(true) {
        assert(table.columns[6].column == Column::SecretToken);
    }
}

/// Two sessions share a token exactly where two rows agree in the column of tokens.
proof fn lemma_tokens_differ(db: Database)
    requires
        is_of_server(db),
        db.tables.contains_key(TableName::Sessions),
        has_token(db),
    ensures
        can_be_indexed(holding(db)) <==> !has_duplicates(
            db.tables[TableName::Sessions],
            seq![Column::SecretToken],
        ),
{
    let table = db.tables[TableName::Sessions];
    let rows = holding(db).sessions->0.rows;
    let token = seq![Column::SecretToken];
    assert(token[0] == Column::SecretToken);
    assert(table.columns[6].column == Column::SecretToken);
    assert forall|k: int| #[trigger] table.rows.contains_key(k) implies !(
    table.rows[k][Column::SecretToken] is Integer) && rows.contains_key(k) && rows[k]
        == session_in(table.rows[k]) by {
        assert(fits(table.rows[k][table.columns[6].column], table.columns[6].kind));
    }
    if has_duplicates(table, token) {
        let (a, b) = choose|a: int, b: int|
            table.rows.contains_key(a) && table.rows.contains_key(b) && a != b && #[trigger] agree(
                table.rows[a],
                table.rows[b],
                token,
            );
        assert(table.rows[a][token[0]] == table.rows[b][token[0]]);
        assert(rows.contains_key(a) && rows.contains_key(b));
    } else {
        assert forall|a: int, b: int| #[trigger]
            rows.contains_key(a) && #[trigger] rows.contains_key(b) && a != b
                && rows[a].secret_token is Some implies rows[a].secret_token
            != rows[b].secret_token by {
            assert(table.rows.contains_key(a) && table.rows.contains_key(b));
            assert(!agree(table.rows[a], table.rows[b], token));
        }
    }
}

/// What each of these stages runs, read as SQL, does what the model of the tables says of the
/// stage, unless it is refused, and leaves tables that are the server's.
pub proof fn law_stage_does_what_the_model_says(
    db: Database,
    stage: Stage,
    sure: bool,
    result: Seq<Seq<Value>>,
    after: Database,
)
    requires
        has_statement(stage),
        is_of_server(db),
        stage is TokenColumn || stage is TokenIndex ==> db.tables.contains_key(
            TableName::Sessions,
        ),
        stage is TokenIndex ==> has_token(db),
        does(db, stage_statement(stage), seq![], result, after),
        !is_refused(db, stage_statement(stage), seq![]),
    ensures
        is_understood(db, stage_statement(stage), seq![]),
        stage_performs(holding(db), stage, sure, Ok(()), holding(after)),
        is_of_server(after),
{
    let table = db.tables[TableName::Sessions];
    let left = after.tables[TableName::Sessions];
    lemma_token_column(table);
    match stage {
        Stage::SessionsTable => {
            if !db.tables.contains_key(TableName::Sessions) {
                lemma_session_constraints();
                lemma_token_column(left);
                assert(holding(after).sessions->0.rows =~= Map::empty());
            }
        },
        Stage::TokenColumn => {
            assert(table.columns == session_columns(false));
            assert(left.columns =~= session_columns(true));
            lemma_token_column(left);
            lemma_added_column_stays_valid(table, left);
            assert(holding(after).sessions->0.rows =~= holding(db).sessions->0.rows);
        },
        Stage::TokenIndex => {
            lemma_tokens_differ(db);
            if !db.indexes.contains("idx_sessions_secret_token"@) {
                assert(left.unique =~= session_constraints(true));
                lemma_index_stays_valid(table, left);
                assert(holding(after).sessions->0.rows =~= holding(db).sessions->0.rows);
            }
        },
        _ => {
            if !db.tables.contains_key(TableName::Chunks) {
                lemma_chunk_constraints();
                assert(holding(after).chunks->0 =~= Map::empty());
            }
        },
    }
}

/// The column of tokens is refused exactly where it is there, the index exactly where it is not
/// there and two sessions share a token, and the tables never.
pub proof fn law_stage_is_refused_where_it_must(db: Database, stage: Stage)
    requires
        has_statement(stage),
        is_of_server(db),
        stage is TokenColumn || stage is TokenIndex ==> db.tables.contains_key(
            TableName::Sessions,
        ),
        stage is TokenIndex ==> has_token(db),
    ensures
        is_refused(db, stage_statement(stage), seq![]) <==> match stage {
            Stage::TokenColumn => holding(db).sessions->0.has_token,
            Stage::TokenIndex => !holding(db).token_index && !can_be_indexed(holding(db)),
            _ => false,
        },
{
    lemma_token_column(db.tables[TableName::Sessions]);
    if stage is TokenIndex {
        lemma_tokens_differ(db);
    }
}

proof fn lemma_session_constraints()
    ensures
        constraints(session_columns(true), seq![]) == session_constraints(false),
{
    let c = session_columns(true);
    reveal_with_fuel(constraints, 9);
    assert(constraints(c, seq![]) =~= session_constraints(false));
}

proof fn lemma_chunk_constraints()
    ensures
        constraints(chunk_columns(), seq![Column::SessionId, Column::Idx]) == seq![
            seq![Column::SessionId, Column::Idx],
        ],
{
    reveal_with_fuel(constraints, 9);
}

proof fn lemma_added_column_stays_valid(table: Table, after: Table)
    requires
        is_valid_table(table),
        table.columns == session_columns(false),
        table.unique == session_constraints(false),
        after.columns == session_columns(true),
        after.unique == table.unique,
        after.rows == table.rows.map_values(
            |row: Row| row.insert(Column::SecretToken, Value::Null),
        ),
    ensures
        is_valid_table(after),
{
    assert forall|k: int, c: Column| after.rows.contains_key(k) implies (
    #[trigger] after.rows[k].contains_key(c) <==> has_column(after, c)) by {
        assert(table.rows[k].contains_key(c) <==> has_column(table, c));
        if has_column(table, c) {
            let i = choose|i: int|
                0 <= i < table.columns.len() && (#[trigger] table.columns[i]).column == c;
            assert(after.columns[i].column == c);
        }
        if has_column(after, c) && c != Column::SecretToken {
            let i = choose|i: int|
                0 <= i < after.columns.len() && (#[trigger] after.columns[i]).column == c;
            assert(table.columns[i].column == c);
        }
        assert(after.columns[6].column == Column::SecretToken);
    }
    assert forall|k: int, i: int|
        0 <= i < after.columns.len() && after.rows.contains_key(k) implies fits(
        #[trigger] after.rows[k][(#[trigger] after.columns[i]).column],
        after.columns[i].kind,
    ) && (after.columns[i].not_null ==> after.rows[k][after.columns[i].column] != Value::Null) by {
        if i < 6 {
            assert(after.columns[i] == table.columns[i]);
            assert(fits(table.rows[k][table.columns[i].column], table.columns[i].kind));
        }
    }
    assert forall|a: int, b: int, u: int|
        0 <= u < after.unique.len() && after.rows.contains_key(a) && after.rows.contains_key(b) && a
            != b implies !#[trigger] agree(after.rows[a], after.rows[b], after.unique[u]) by {
        assert(!agree(table.rows[a], table.rows[b], table.unique[u]));
        assert(table.unique[0] == seq![Column::Id]);
        assert(table.unique[u][0] == Column::Id);
    }
}

proof fn lemma_index_stays_valid(table: Table, after: Table)
    requires
        is_valid_table(table),
        table.columns == session_columns(true),
        table.unique == session_constraints(false),
        !has_duplicates(table, seq![Column::SecretToken]),
        after.columns == table.columns,
        after.unique == session_constraints(true),
        after.rows == table.rows,
    ensures
        is_valid_table(after),
{
    assert forall|a: int, b: int, u: int|
        0 <= u < after.unique.len() && after.rows.contains_key(a) && after.rows.contains_key(b) && a
            != b implies !#[trigger] agree(after.rows[a], after.rows[b], after.unique[u]) by {
        if u == 0 {
            assert(table.unique[0] == after.unique[0]);
            assert(!agree(table.rows[a], table.rows[b], table.unique[0]));
        } else {
            assert(after.unique[u] == seq![Column::SecretToken]);
        }
    }
    assert forall|c: Column| has_column(after, c) == has_column(table, c) by {
        if has_column(after, c) {
            let i = choose|i: int|
                0 <= i < after.columns.len() && (#[trigger] after.columns[i]).column == c;
            assert(table.columns[i].column == c);
        }
        if has_column(table, c) {
            let i = choose|i: int|
                0 <= i < table.columns.len() && (#[trigger] table.columns[i]).column == c;
            assert(after.columns[i].column == c);
        }
    }
}

/// The four texts, run one after the other on a database that holds nothing of the server's or what
/// an earlier version of it made, give the server's tables. The column is added where it is not
/// there and passed over where it is.
pub proof fn law_startup_makes_the_tables(
    config: ConfigView,
    db: Database,
    first: Database,
    second: Database,
    third: Database,
    last: Database,
)
    requires
        is_of_server(db),
        does(db, stage_statement(Stage::SessionsTable), seq![], seq![], first),
        if has_token(first) {
            second == first
        } else {
            does(first, stage_statement(Stage::TokenColumn), seq![], seq![], second)
        },
        !is_refused(second, stage_statement(Stage::TokenIndex), seq![]),
        does(second, stage_statement(Stage::TokenIndex), seq![], seq![], third),
        does(third, stage_statement(Stage::ChunksTable), seq![], seq![], last),
    ensures
        reads(stage_text(config, Stage::SessionsTable), stage_statement(Stage::SessionsTable)),
        reads(stage_text(config, Stage::TokenColumn), stage_statement(Stage::TokenColumn)),
        reads(stage_text(config, Stage::TokenIndex), stage_statement(Stage::TokenIndex)),
        reads(stage_text(config, Stage::ChunksTable), stage_statement(Stage::ChunksTable)),
        is_of_server(last),
        is_made(last),
        holding(last) == held(last),
{
    law_every_stage_is_read(config, Stage::SessionsTable);
    law_every_stage_is_read(config, Stage::TokenColumn);
    law_every_stage_is_read(config, Stage::TokenIndex);
    law_every_stage_is_read(config, Stage::ChunksTable);
    law_stage_does_what_the_model_says(db, Stage::SessionsTable, false, seq![], first);
    lemma_token_column(first.tables[TableName::Sessions]);
    if !has_token(first) {
        law_stage_does_what_the_model_says(first, Stage::TokenColumn, false, seq![], second);
        assert(second.tables[TableName::Sessions].columns =~= session_columns(true));
    }
    law_stage_does_what_the_model_says(second, Stage::TokenIndex, false, seq![], third);
    law_stage_does_what_the_model_says(third, Stage::ChunksTable, false, seq![], last);
    assert(holding(last).sessions->0.rows =~= held(last).sessions->0.rows);
    assert(holding(last).chunks->0 =~= held(last).chunks->0);
}

/// Once the server has come up, a chunk is a row of six columns, none of which can be missing, and
/// no two rows have the same session and index; nothing else has to differ.
pub proof fn law_chunks_are_told_apart_by_session_and_index(db: Database)
    requires
        is_made(db),
    ensures
        ({
            let table = db.tables[TableName::Chunks];
            &&& table.columns.map_values(|d: ColumnDef| d.column) == seq![
                Column::SessionId,
                Column::Idx,
                Column::ByteLen,
                Column::Sha256Hex,
                Column::FilePath,
                Column::CreatedAt,
            ]
            &&& table.columns.map_values(|d: ColumnDef| d.kind) == seq![
                Kind::Text,
                Kind::Integer,
                Kind::Integer,
                Kind::Text,
                Kind::Text,
                Kind::Text,
            ]
            &&& forall|i: int| 0 <= i < 6 ==> (#[trigger] table.columns[i]).not_null
            &&& forall|i: int|
                0 <= i < 6 ==> ((#[trigger] table.columns[i]).now <==> table.columns[i].column
                    is CreatedAt)
            &&& table.unique == seq![seq![Column::SessionId, Column::Idx]]
        }),
{
    let table = db.tables[TableName::Chunks];
    assert(table.columns.map_values(|d: ColumnDef| d.column) =~= seq![
        Column::SessionId,
        Column::Idx,
        Column::ByteLen,
        Column::Sha256Hex,
        Column::FilePath,
        Column::CreatedAt,
    ]);
    assert(table.columns.map_values(|d: ColumnDef| d.kind) =~= seq![
        Kind::Text,
        Kind::Integer,
        Kind::Integer,
        Kind::Text,
        Kind::Text,
        Kind::Text,
    ]);
}

/// Once the server has come up, a session is a row of seven texts, of which the status and the time
/// at which it was added cannot be missing, and no two rows have the same id or the same token;
/// nothing else has to differ.
pub proof fn law_sessions_are_told_apart_by_id_and_by_token(db: Database)
    requires
        is_made(db),
    ensures
        ({
            let table = db.tables[TableName::Sessions];
            &&& table.columns.map_values(|d: ColumnDef| d.column) == seq![
                Column::Id,
                Column::Status,
                Column::MimeType,
                Column::CreatedAt,
                Column::CompletedAt,
                Column::OutputPath,
                Column::SecretToken,
            ]
            &&& forall|i: int| 0 <= i < 7 ==> (#[trigger] table.columns[i]).kind is Text
            &&& forall|i: int|
                0 <= i < 7 ==> ((#[trigger] table.columns[i]).not_null <==> table.columns[i].column
                    is Status || table.columns[i].column is CreatedAt)
            &&& forall|i: int|
                0 <= i < 7 ==> ((#[trigger] table.columns[i]).now <==> table.columns[i].column
                    is CreatedAt)
            &&& table.unique == seq![seq![Column::Id], seq![Column::SecretToken]]
        }),
{
    let table = db.tables[TableName::Sessions];
    assert(table.columns.map_values(|d: ColumnDef| d.column) =~= seq![
        Column::Id,
        Column::Status,
        Column::MimeType,
        Column::CreatedAt,
        Column::CompletedAt,
        Column::OutputPath,
        Column::SecretToken,
    ]);
}

} // verus!
