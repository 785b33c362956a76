//! Which statements the texts of the server's queries are.
use vstd::prelude::*;

use crate::effect::QueryView;
use crate::sql::{
    column_text, columns_text, is_word, listed_with, reads, table_text, term_text, where_text,
    written, Column, Statement, TableName, Term,
};

verus! {

/// The statement that a query is.
pub open spec fn statement(query: QueryView) -> Statement {
    match query {
        QueryView::InsertSession { .. } => Statement::Insert {
            table: TableName::Sessions,
            columns: seq![Column::Id, Column::Status, Column::MimeType, Column::SecretToken],
            terms: seq![Term::Bound, Term::Word("recording"@), Term::Bound, Term::Bound],
        },
        QueryView::SessionById { .. } => Statement::Select {
            columns: seq![
                Column::Id,
                Column::Status,
                Column::MimeType,
                Column::CreatedAt,
                Column::CompletedAt,
                Column::OutputPath,
                Column::SecretToken,
            ],
            table: TableName::Sessions,
            conditions: seq![Column::Id],
            order: None,
        },
        QueryView::SessionIdByToken { .. } => Statement::Select {
            columns: seq![Column::Id],
            table: TableName::Sessions,
            conditions: seq![Column::SecretToken],
            order: None,
        },
        QueryView::SecretTokenById { .. } => Statement::Select {
            columns: seq![Column::SecretToken],
            table: TableName::Sessions,
            conditions: seq![Column::Id],
            order: None,
        },
        QueryView::OutputPathById { .. } => Statement::Select {
            columns: seq![Column::OutputPath],
            table: TableName::Sessions,
            conditions: seq![Column::Id],
            order: None,
        },
        QueryView::RecordingByToken { .. } => Statement::Select {
            columns: seq![Column::Id, Column::OutputPath],
            table: TableName::Sessions,
            conditions: seq![Column::SecretToken],
            order: None,
        },
        QueryView::ChunkDigest { .. } => Statement::Select {
            columns: seq![Column::Sha256Hex],
            table: TableName::Chunks,
            conditions: seq![Column::SessionId, Column::Idx],
            order: None,
        },
        QueryView::InsertChunk { .. } => Statement::Insert {
            table: TableName::Chunks,
            columns: seq![
                Column::SessionId,
                Column::Idx,
                Column::ByteLen,
                Column::Sha256Hex,
                Column::FilePath,
            ],
            terms: seq![Term::Bound, Term::Bound, Term::Bound, Term::Bound, Term::Bound],
        },
        QueryView::ChunksInOrder { .. } => Statement::Select {
            columns: seq![Column::Idx, Column::FilePath],
            table: TableName::Chunks,
            conditions: seq![Column::SessionId],
            order: Some(Column::Idx),
        },
        QueryView::ChunkFiles { .. } => Statement::Select {
            columns: seq![Column::FilePath],
            table: TableName::Chunks,
            conditions: seq![Column::SessionId],
            order: None,
        },
        QueryView::FinalizeSession { .. } => Statement::Update {
            table: TableName::Sessions,
            columns: seq![Column::Status, Column::CompletedAt, Column::OutputPath],
            terms: seq![Term::Word("finalized"@), Term::Now, Term::Bound],
            conditions: seq![Column::Id],
        },
        QueryView::DeleteChunks { .. } => Statement::Delete {
            table: TableName::Chunks,
            conditions: seq![Column::SessionId],
        },
        QueryView::DeleteSession { .. } => Statement::Delete {
            table: TableName::Sessions,
            conditions: seq![Column::Id],
        },
    }
}

proof fn lemma_select_one(
    text: Seq<char>,
    column: Column,
    table: TableName,
    condition: Column,
)
    requires
        text == "SELECT "@ + column_text(column) + " FROM "@ + table_text(table) + " WHERE "@
            + column_text(condition) + " = ?"@,
    ensures
        reads(
            text,
            Statement::Select {
                columns: seq![column],
                table,
                conditions: seq![condition],
                order: None,
            },
        ),
{
    reveal_strlit("");
    reveal_with_fuel(listed_with, 8);
    assert(seq![column].map_values(|c: Column| column_text(c)) =~= seq![column_text(column)]);
    assert(seq![condition].map_values(|c: Column| column_text(c) + " = ?"@) =~= seq![
        column_text(condition) + " = ?"@,
    ]);
    assert(columns_text(seq![column]) == column_text(column));
    assert(where_text(seq![condition]) == " WHERE "@ + (column_text(condition) + " = ?"@));
    assert(text =~= written(
        Statement::Select { columns: seq![column], table, conditions: seq![condition], order: None },
    ));
}

proof fn lemma_delete_one(text: Seq<char>, table: TableName, condition: Column)
    requires
        text == "DELETE FROM "@ + table_text(table) + " WHERE "@ + column_text(condition) + " = ?"@,
    ensures
        reads(text, Statement::Delete { table, conditions: seq![condition] }),
{
    reveal_with_fuel(listed_with, 8);
    assert(seq![condition].map_values(|c: Column| column_text(c) + " = ?"@) =~= seq![
        column_text(condition) + " = ?"@,
    ]);
    assert(where_text(seq![condition]) == " WHERE "@ + (column_text(condition) + " = ?"@));
    assert(text =~= written(Statement::Delete { table, conditions: seq![condition] }));
}

proof fn lemma_simple_queries_are_read(query: QueryView)
    requires
        query is SessionIdByToken || query is SecretTokenById || query is OutputPathById
            || query is ChunkFiles || query is DeleteChunks || query is DeleteSession,
    ensures
        reads(query.sql(), statement(query)),
{
    reveal_strlit("SELECT ");
    reveal_strlit(" FROM ");
    reveal_strlit(" WHERE ");
    reveal_strlit(" = ?");
    reveal_strlit("DELETE FROM ");
    reveal_strlit("sessions");
    reveal_strlit("chunks");
    reveal_strlit("id");
    reveal_strlit("secret_token");
    reveal_strlit("output_path");
    reveal_strlit("file_path");
    reveal_strlit("session_id");
    match query {
        QueryView::SessionIdByToken { .. } => {
            reveal_strlit("SELECT id FROM sessions WHERE secret_token = ?");
            assert(query.sql() =~= "SELECT "@ + "id"@ + " FROM "@ + "sessions"@ + " WHERE "@
                + "secret_token"@ + " = ?"@);
            lemma_select_one(
                query.sql(),
                Column::Id,
                TableName::Sessions,
                Column::SecretToken,
            );
        },
        QueryView::SecretTokenById { .. } => {
            reveal_strlit("SELECT secret_token FROM sessions WHERE id = ?");
            assert(query.sql() =~= "SELECT "@ + "secret_token"@ + " FROM "@ + "sessions"@
                + " WHERE "@ + "id"@ + " = ?"@);
            lemma_select_one(
                query.sql(),
                Column::SecretToken,
                TableName::Sessions,
                Column::Id,
            );
        },
        QueryView::OutputPathById { .. } => {
            reveal_strlit("SELECT output_path FROM sessions WHERE id = ?");
            assert(query.sql() =~= "SELECT "@ + "output_path"@ + " FROM "@ + "sessions"@
                + " WHERE "@ + "id"@ + " = ?"@);
            lemma_select_one(query.sql(), Column::OutputPath, TableName::Sessions, Column::Id);
        },
        QueryView::ChunkFiles { .. } => {
            reveal_strlit("SELECT file_path FROM chunks WHERE session_id = ?");
            assert(query.sql() =~= "SELECT "@ + "file_path"@ + " FROM "@ + "chunks"@ + " WHERE "@
                + "session_id"@ + " = ?"@);
            lemma_select_one(
                query.sql(),
                Column::FilePath,
                TableName::Chunks,
                Column::SessionId,
            );
        },
        QueryView::DeleteChunks { .. } => {
            reveal_strlit("DELETE FROM chunks WHERE session_id = ?");
            assert(query.sql() =~= "DELETE FROM "@ + "chunks"@ + " WHERE "@ + "session_id"@
                + " = ?"@);
            lemma_delete_one(query.sql(), TableName::Chunks, Column::SessionId);
        },
        _ => {
            reveal_strlit("DELETE FROM sessions WHERE id = ?");
            assert(query.sql() =~= "DELETE FROM "@ + "sessions"@ + " WHERE "@ + "id"@ + " = ?"@);
            lemma_delete_one(query.sql(), TableName::Sessions, Column::Id);
        },
    }
}

proof fn lemma_recording_query_is_read(query: QueryView)
    requires
        query is RecordingByToken,
    ensures
        reads(query.sql(), statement(query)),
{
    reveal_strlit("");
    reveal_strlit("SELECT ");
    reveal_strlit(" FROM ");
    reveal_strlit(" WHERE ");
    reveal_strlit(" = ?");
    reveal_strlit(", ");
    reveal_strlit("sessions");
    reveal_strlit("id");
    reveal_strlit("secret_token");
    reveal_strlit("output_path");
    reveal_strlit("SELECT id, output_path FROM sessions WHERE secret_token = ?");
    reveal_with_fuel(listed_with, 8);
    let columns = seq![Column::Id, Column::OutputPath];
    assert(columns.map_values(|c: Column| column_text(c)) =~= seq!["id"@, "output_path"@]);
    assert(seq![Column::SecretToken].map_values(|c: Column| column_text(c) + " = ?"@) =~= seq![
        "secret_token"@ + " = ?"@,
    ]);
    assert(columns_text(columns) == "id"@ + ", "@ + "output_path"@);
    assert(where_text(seq![Column::SecretToken]) == " WHERE "@ + ("secret_token"@ + " = ?"@));
    assert(query.sql() =~= written(statement(query)));
}

proof fn lemma_session_query_is_read(query: QueryView)
    requires
        query is SessionById,
    ensures
        reads(query.sql(), statement(query)),
{
    reveal_strlit("");
    reveal_strlit("SELECT ");
    reveal_strlit(" FROM ");
    reveal_strlit(" WHERE ");
    reveal_strlit(" = ?");
    reveal_strlit(", ");
    reveal_strlit("sessions");
    reveal_strlit("id");
    reveal_strlit("status");
    reveal_strlit("mime_type");
    reveal_strlit("created_at");
    reveal_strlit("completed_at");
    reveal_strlit("output_path");
    reveal_strlit("secret_token");
    reveal_strlit("SELECT id, status, mime_type, created_at, completed_at, output_path, secret_token FROM sessions WHERE id = ?");
    reveal_with_fuel(listed_with, 8);
    let columns = statement(query)->Select_columns;
    assert(columns.map_values(|c: Column| column_text(c)) =~= seq![
        "id"@,
        "status"@,
        "mime_type"@,
        "created_at"@,
        "completed_at"@,
        "output_path"@,
        "secret_token"@,
    ]);
    assert(seq![Column::Id].map_values(|c: Column| column_text(c) + " = ?"@) =~= seq![
        "id"@ + " = ?"@,
    ]);
    assert(columns_text(columns) == "id"@ + ", "@ + ("status"@ + ", "@ + ("mime_type"@ + ", "@ + (
    "created_at"@ + ", "@ + ("completed_at"@ + ", "@ + ("output_path"@ + ", "@
        + "secret_token"@))))));
    assert(where_text(seq![Column::Id]) == " WHERE "@ + ("id"@ + " = ?"@));
    assert(query.sql() =~= written(statement(query)));
}

proof fn lemma_chunk_queries_are_read(query: QueryView)
    requires
        query is ChunkDigest || query is ChunksInOrder,
    ensures
        reads(query.sql(), statement(query)),
{
    reveal_strlit("");
    reveal_strlit("SELECT ");
    reveal_strlit(" FROM ");
    reveal_strlit(" WHERE ");
    reveal_strlit(" AND ");
    reveal_strlit(" ORDER BY ");
    reveal_strlit(" ASC");
    reveal_strlit(" = ?");
    reveal_strlit(", ");
    reveal_strlit("chunks");
    reveal_strlit("session_id");
    reveal_strlit("idx");
    reveal_strlit("sha256_hex");
    reveal_strlit("file_path");
    reveal_with_fuel(listed_with, 8);
    if query is ChunkDigest {
        reveal_strlit("SELECT sha256_hex FROM chunks WHERE session_id = ? AND idx = ?");
        assert(seq![Column::Sha256Hex].map_values(|c: Column| column_text(c)) =~= seq![
            "sha256_hex"@,
        ]);
        let conditions = seq![Column::SessionId, Column::Idx];
        assert(conditions.map_values(|c: Column| column_text(c) + " = ?"@) =~= seq![
            "session_id"@ + " = ?"@,
            "idx"@ + " = ?"@,
        ]);
        assert(columns_text(seq![Column::Sha256Hex]) == "sha256_hex"@);
        assert(where_text(conditions) == " WHERE "@ + ("session_id"@ + " = ?"@ + " AND "@ + (
        "idx"@ + " = ?"@)));
        assert(query.sql() =~= written(statement(query)));
    } else {
        reveal_strlit("SELECT idx, file_path FROM chunks WHERE session_id = ? ORDER BY idx ASC");
        let columns = seq![Column::Idx, Column::FilePath];
        assert(columns.map_values(|c: Column| column_text(c)) =~= seq!["idx"@, "file_path"@]);
        assert(seq![Column::SessionId].map_values(|c: Column| column_text(c) + " = ?"@) =~= seq![
            "session_id"@ + " = ?"@,
        ]);
        assert(columns_text(columns) == "idx"@ + ", "@ + "file_path"@);
        assert(where_text(seq![Column::SessionId]) == " WHERE "@ + ("session_id"@ + " = ?"@));
        assert(query.sql() =~= written(statement(query)));
    }
}

proof fn lemma_insert_session_is_read(query: QueryView)
    requires
        query is InsertSession,
    ensures
        reads(query.sql(), statement(query)),
{
    reveal_strlit("INSERT INTO ");
    reveal_strlit(" (");
    reveal_strlit(") VALUES (");
    reveal_strlit(")");
    reveal_strlit(", ");
    reveal_strlit("?");
    reveal_strlit("'");
    reveal_strlit("recording");
    reveal_strlit("sessions");
    reveal_strlit("id");
    reveal_strlit("status");
    reveal_strlit("mime_type");
    reveal_strlit("secret_token");
    reveal_strlit("INSERT INTO sessions (id, status, mime_type, secret_token) VALUES (?, 'recording', ?, ?)");
    reveal_with_fuel(listed_with, 8);
    let columns = seq![Column::Id, Column::Status, Column::MimeType, Column::SecretToken];
    let terms = seq![Term::Bound, Term::Word("recording"@), Term::Bound, Term::Bound];
    assert(columns.map_values(|c: Column| column_text(c)) =~= seq![
        "id"@,
        "status"@,
        "mime_type"@,
        "secret_token"@,
    ]);
    assert(terms.map_values(|t: Term| term_text(t)) =~= seq![
        "?"@,
        "'"@ + "recording"@ + "'"@,
        "?"@,
        "?"@,
    ]);
    assert(columns_text(columns) == "id"@ + ", "@ + ("status"@ + ", "@ + ("mime_type"@ + ", "@
        + "secret_token"@)));
    assert(listed_with(terms.map_values(|t: Term| term_text(t)), ", "@) == "?"@ + ", "@ + ("'"@
        + "recording"@ + "'"@ + ", "@ + ("?"@ + ", "@ + "?"@)));
    assert(query.sql() =~= written(statement(query)));
    assert(is_word("recording"@));
}

proof fn lemma_insert_chunk_is_read(query: QueryView)
    requires
        query is InsertChunk,
    ensures
        reads(query.sql(), statement(query)),
{
    reveal_strlit("INSERT INTO ");
    reveal_strlit(" (");
    reveal_strlit(") VALUES (");
    reveal_strlit(")");
    reveal_strlit(", ");
    reveal_strlit("?");
    reveal_strlit("chunks");
    reveal_strlit("session_id");
    reveal_strlit("idx");
    reveal_strlit("byte_len");
    reveal_strlit("sha256_hex");
    reveal_strlit("file_path");
    reveal_strlit("INSERT INTO chunks (session_id, idx, byte_len, sha256_hex, file_path) VALUES (?, ?, ?, ?, ?)");
    reveal_with_fuel(listed_with, 8);
    let columns = statement(query)->Insert_columns;
    let terms = statement(query)->Insert_terms;
    assert(columns.map_values(|c: Column| column_text(c)) =~= seq![
        "session_id"@,
        "idx"@,
        "byte_len"@,
        "sha256_hex"@,
        "file_path"@,
    ]);
    assert(terms.map_values(|t: Term| term_text(t)) =~= seq!["?"@, "?"@, "?"@, "?"@, "?"@]);
    assert(columns_text(columns) == "session_id"@ + ", "@ + ("idx"@ + ", "@ + ("byte_len"@ + ", "@
        + ("sha256_hex"@ + ", "@ + "file_path"@))));
    assert(listed_with(terms.map_values(|t: Term| term_text(t)), ", "@) == "?"@ + ", "@ + ("?"@
        + ", "@ + ("?"@ + ", "@ + ("?"@ + ", "@ + "?"@))));
    assert(query.sql() =~= written(statement(query)));
}

proof fn lemma_finalize_is_read(query: QueryView)
    requires
        query is FinalizeSession,
    ensures
        reads(query.sql(), statement(query)),
{
    reveal_strlit("UPDATE ");
    reveal_strlit(" SET ");
    reveal_strlit(" WHERE ");
    reveal_strlit(" = ?");
    reveal_strlit(" = ");
    reveal_strlit("?");
    reveal_strlit("'");
    reveal_strlit(", ");
    reveal_strlit("finalized");
    reveal_strlit("datetime('now')");
    reveal_strlit("sessions");
    reveal_strlit("id");
    reveal_strlit("status");
    reveal_strlit("completed_at");
    reveal_strlit("output_path");
    reveal_strlit("UPDATE sessions SET status = 'finalized', completed_at = datetime('now'), output_path = ? WHERE id = ?");
    reveal_with_fuel(listed_with, 8);
    let columns = seq![Column::Status, Column::CompletedAt, Column::OutputPath];
    let terms = seq![Term::Word("finalized"@), Term::Now, Term::Bound];
    let sets = Seq::new(
        columns.len(),
        |i: int| column_text(columns[i]) + " = "@ + term_text(terms[i]),
    );
    assert(sets =~= seq![
        "status"@ + " = "@ + ("'"@ + "finalized"@ + "'"@),
        "completed_at"@ + " = "@ + "datetime('now')"@,
        "output_path"@ + " = "@ + "?"@,
    ]);
    assert(seq![Column::Id].map_values(|c: Column| column_text(c) + " = ?"@) =~= seq![
        "id"@ + " = ?"@,
    ]);
    assert(listed_with(sets, ", "@) == "status"@ + " = "@ + ("'"@ + "finalized"@ + "'"@) + ", "@ + (
    "completed_at"@ + " = "@ + "datetime('now')"@ + ", "@ + ("output_path"@ + " = "@ + "?"@)));
    assert(where_text(seq![Column::Id]) == " WHERE "@ + ("id"@ + " = ?"@));
    assert(query.sql() =~= written(statement(query)));
    assert(is_word("finalized"@));
}

/// The text of every query says a statement.
pub proof fn law_every_query_is_read(query: QueryView)
    ensures
        reads(query.sql(), statement(query)),
{
    match query {
        QueryView::InsertSession { .. } => lemma_insert_session_is_read(query),
        QueryView::SessionById { .. } => lemma_session_query_is_read(query),
        QueryView::RecordingByToken { .. } => lemma_recording_query_is_read(query),
        QueryView::ChunkDigest { .. } => lemma_chunk_queries_are_read(query),
        QueryView::ChunksInOrder { .. } => lemma_chunk_queries_are_read(query),
        QueryView::InsertChunk { .. } => lemma_insert_chunk_is_read(query),
        QueryView::FinalizeSession { .. } => lemma_finalize_is_read(query),
        _ => lemma_simple_queries_are_read(query),
    }
}

} // verus!
