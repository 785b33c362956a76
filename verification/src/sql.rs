//! The part of SQL that the server's statements are written in: what a text says, and what it does
//! to tables. Where a statement is not understood, nothing is claimed of it.
use vstd::prelude::*;

verus! {

/// A value in a row or behind a placeholder.
pub enum Value {
    Null,
    Text(Seq<char>),
    Integer(i64),
}

/// The declared type of a column.
pub enum Kind {
    Text,
    Integer,
}

/// The columns.
pub enum Column {
    Id,
    Status,
    MimeType,
    CreatedAt,
    CompletedAt,
    OutputPath,
    SecretToken,
    SessionId,
    Idx,
    ByteLen,
    Sha256Hex,
    FilePath,
}

/// The tables.
pub enum TableName {
    Sessions,
    Chunks,
}

/// The declaration of a column. `now` says that its default is the time of the insertion.
pub struct ColumnDef {
    pub column: Column,
    pub kind: Kind,
    pub primary_key: bool,
    pub not_null: bool,
    pub now: bool,
}

/// What is put into a column: what is bound to the next placeholder, a word, or the time.
pub enum Term {
    Bound,
    Word(Seq<char>),
    Now,
}

/// A statement. The conditions name the columns that have to equal what is bound to their
/// placeholders, and all have to hold.
pub enum Statement {
    Insert { table: TableName, columns: Seq<Column>, terms: Seq<Term> },
    Select {
        columns: Seq<Column>,
        table: TableName,
        conditions: Seq<Column>,
        order: Option<Column>,
    },
    Update {
        table: TableName,
        columns: Seq<Column>,
        terms: Seq<Term>,
        conditions: Seq<Column>,
    },
    Delete { table: TableName, conditions: Seq<Column> },
    CreateTable { table: TableName, defs: Seq<ColumnDef>, key: Seq<Column> },
    AddColumn { table: TableName, def: ColumnDef },
    CreateUniqueIndex { name: Seq<char>, table: TableName, columns: Seq<Column> },
}

/// The name of a column.
pub open spec fn column_text(column: Column) -> Seq<char> {
    match column {
        Column::Id => "id"@,
        Column::Status => "status"@,
        Column::MimeType => "mime_type"@,
        Column::CreatedAt => "created_at"@,
        Column::CompletedAt => "completed_at"@,
        Column::OutputPath => "output_path"@,
        Column::SecretToken => "secret_token"@,
        Column::SessionId => "session_id"@,
        Column::Idx => "idx"@,
        Column::ByteLen => "byte_len"@,
        Column::Sha256Hex => "sha256_hex"@,
        Column::FilePath => "file_path"@,
    }
}

/// The name of a table.
pub open spec fn table_text(table: TableName) -> Seq<char> {
    match table {
        TableName::Sessions => "sessions"@,
        TableName::Chunks => "chunks"@,
    }
}

/// Texts one after the other, with a separator between them.
pub open spec fn listed_with(texts: Seq<Seq<char>>, separator: Seq<char>) -> Seq<char>
    decreases texts.len(),
{
    if texts.len() == 0 {
        seq![]
    } else if texts.len() == 1 {
        texts[0]
    } else {
        texts[0] + separator + listed_with(texts.drop_first(), separator)
    }
}

/// The names of columns, separated by commas.
pub open spec fn columns_text(columns: Seq<Column>) -> Seq<char> {
    listed_with(columns.map_values(|c: Column| column_text(c)), ", "@)
}

/// A term as it is written.
pub open spec fn term_text(term: Term) -> Seq<char> {
    match term {
        Term::Bound => "?"@,
        Term::Word(word) => "'"@ + word + "'"@,
        Term::Now => "datetime('now')"@,
    }
}

/// The conditions as they are written.
pub open spec fn where_text(conditions: Seq<Column>) -> Seq<char> {
    " WHERE "@ + listed_with(
        conditions.map_values(|c: Column| column_text(c) + " = ?"@),
        " AND "@,
    )
}

/// The declaration of a column as it is written.
pub open spec fn def_text(def: ColumnDef) -> Seq<char> {
    column_text(def.column) + (match def.kind {
        Kind::Text => " TEXT"@,
        Kind::Integer => " INTEGER"@,
    }) + (if def.primary_key {
        " PRIMARY KEY"@
    } else {
        ""@
    }) + (if def.not_null {
        " NOT NULL"@
    } else {
        ""@
    }) + (if def.now {
        " DEFAULT (datetime('now'))"@
    } else {
        ""@
    })
}

/// A statement as it is written.
pub open spec fn written(statement: Statement) -> Seq<char> {
    match statement {
        Statement::Insert { table, columns, terms } => "INSERT INTO "@ + table_text(table) + " ("@
            + columns_text(columns) + ") VALUES ("@ + listed_with(
            terms.map_values(|t: Term| term_text(t)),
            ", "@,
        ) + ")"@,
        Statement::Select { columns, table, conditions, order } => "SELECT "@ + columns_text(columns)
            + " FROM "@ + table_text(table) + where_text(conditions) + (match order {
            Some(column) => " ORDER BY "@ + column_text(column) + " ASC"@,
            None => ""@,
        }),
        Statement::Update { table, columns, terms, conditions } => "UPDATE "@ + table_text(table)
            + " SET "@ + listed_with(
            Seq::new(
                columns.len(),
                |i: int| column_text(columns[i]) + " = "@ + term_text(terms[i]),
            ),
            ", "@,
        ) + where_text(conditions),
        Statement::Delete { table, conditions } => "DELETE FROM "@ + table_text(table)
            + where_text(conditions),
        Statement::CreateTable { table, defs, key } => "CREATE TABLE IF NOT EXISTS "@
            + table_text(table) + " ("@ + listed_with(
            defs.map_values(|d: ColumnDef| def_text(d)),
            ", "@,
        ) + (if key.len() > 0 {
            ", PRIMARY KEY ("@ + columns_text(key) + ")"@
        } else {
            ""@
        }) + ");"@,
        Statement::AddColumn { table, def } => "ALTER TABLE "@ + table_text(table) + " ADD COLUMN "@
            + def_text(def),
        Statement::CreateUniqueIndex { name, table, columns } =>
            "CREATE UNIQUE INDEX IF NOT EXISTS "@ + name + " ON "@ + table_text(table) + "("@
            + columns_text(columns) + ")"@,
    }
}

/// Whether a text is made of lower-case letters and underscores.
pub open spec fn is_word(text: Seq<char>) -> bool {
    &&& text.len() > 0
    &&& forall|i: int| 0 <= i < text.len() ==> 'a' <= #[trigger] text[i] <= 'z' || text[i] == '_'
}

/// Whether no column is named twice.
pub open spec fn named_once(columns: Seq<Column>) -> bool {
    forall|i: int, j: int| 0 <= i < j < columns.len() ==> columns[i] != columns[j]
}

/// Whether the words among some terms are words.
pub open spec fn terms_are_words(terms: Seq<Term>) -> bool {
    forall|i: int|
        0 <= i < terms.len() ==> match #[trigger] terms[i] {
            Term::Word(word) => is_word(word),
            _ => true,
        }
}

/// Whether a statement is one that can be written down.
pub open spec fn is_well_formed(statement: Statement) -> bool {
    match statement {
        Statement::Insert { columns, terms, .. } => columns.len() > 0 && columns.len()
            == terms.len() && named_once(columns) && terms_are_words(terms),
        Statement::Select { columns, conditions, .. } => columns.len() > 0 && named_once(columns)
            && conditions.len() > 0,
        Statement::Update { columns, terms, conditions, .. } => columns.len() > 0 && columns.len()
            == terms.len() && named_once(columns) && terms_are_words(terms) && conditions.len() > 0,
        Statement::Delete { conditions, .. } => conditions.len() > 0,
        Statement::CreateTable { defs, .. } => defs.len() > 0,
        Statement::AddColumn { .. } => true,
        Statement::CreateUniqueIndex { name, columns, .. } => is_word(name) && columns.len() > 0,
    }
}

/// Whether a text says a statement.
pub open spec fn reads(text: Seq<char>, statement: Statement) -> bool {
    is_well_formed(statement) && text == written(statement)
}

/// A row: the value in each column.
pub type Row = Map<Column, Value>;

/// A table: its columns, the lists of columns in which no two rows may agree, and its rows by row
/// number.
pub struct Table {
    pub columns: Seq<ColumnDef>,
    pub unique: Seq<Seq<Column>>,
    pub rows: Map<int, Row>,
}

/// A database: its tables, and the names of its indexes.
pub struct Database {
    pub tables: Map<TableName, Table>,
    pub indexes: Set<Seq<char>>,
}

/// Whether a table has a column.
pub open spec fn has_column(table: Table, column: Column) -> bool {
    exists|i: int| 0 <= i < table.columns.len() && (#[trigger] table.columns[i]).column == column
}

/// Whether a value is of a kind. Every column takes the missing value as far as kinds go.
pub open spec fn fits(value: Value, kind: Kind) -> bool {
    match value {
        Value::Null => true,
        Value::Text(_) => kind is Text,
        Value::Integer(_) => kind is Integer,
    }
}

/// Whether a value can be compared with, or put into, a column without being converted.
pub open spec fn suits(table: Table, column: Column, value: Value) -> bool {
    exists|i: int|
        0 <= i < table.columns.len() && (#[trigger] table.columns[i]).column == column && fits(
            value,
            table.columns[i].kind,
        )
}

/// The number of placeholders among the first `n` terms.
pub open spec fn bound_below(terms: Seq<Term>, n: int) -> int
    decreases n,
{
    if n <= 0 {
        0
    } else {
        bound_below(terms, n - 1) + if terms[n - 1] is Bound {
            1int
        } else {
            0
        }
    }
}

/// Whether `value` is what the term at `i` stands for. The time is some text.
pub open spec fn is_value_of(terms: Seq<Term>, i: int, binds: Seq<Value>, value: Value) -> bool {
    match terms[i] {
        Term::Bound => value == binds[bound_below(terms, i)],
        Term::Word(word) => value == Value::Text(word),
        Term::Now => value is Text,
    }
}

/// Whether the row meets the conditions. The missing value equals nothing.
pub open spec fn meets(row: Row, conditions: Seq<Column>, values: Seq<Value>) -> bool {
    forall|i: int|
        0 <= i < conditions.len() ==> values[i] != Value::Null && row[#[trigger] conditions[i]]
            == values[i]
}

/// Whether two rows agree in some columns. The missing value agrees with nothing.
pub open spec fn agree(a: Row, b: Row, columns: Seq<Column>) -> bool {
    forall|i: int|
        0 <= i < columns.len() ==> a[#[trigger] columns[i]] != Value::Null && a[columns[i]]
            == b[columns[i]]
}

/// Whether a row can be added to a table as far as its constraints go.
pub open spec fn admits(table: Table, row: Row) -> bool {
    &&& forall|i: int|
        0 <= i < table.columns.len() && (#[trigger] table.columns[i]).not_null
            ==> row[table.columns[i].column] != Value::Null
    &&& forall|u: int, k: int|
        0 <= u < table.unique.len() && table.rows.contains_key(k) ==> !#[trigger] agree(
            row,
            table.rows[k],
            table.unique[u],
        )
}

/// Whether `row` is a row that an insertion makes: the named columns hold their terms, each other
/// column its default, and there are no others.
pub open spec fn is_made_row(
    table: Table,
    columns: Seq<Column>,
    terms: Seq<Term>,
    binds: Seq<Value>,
    row: Row,
) -> bool {
    &&& forall|j: int|
        0 <= j < columns.len() ==> is_value_of(terms, j, binds, row[#[trigger] columns[j]])
    &&& forall|i: int|
        0 <= i < table.columns.len() && !columns.contains(
            (#[trigger] table.columns[i]).column,
        ) ==> if table.columns[i].now {
            row[table.columns[i].column] is Text
        } else {
            row[table.columns[i].column] == Value::Null
        }
    &&& forall|c: Column| #[trigger] row.contains_key(c) <==> has_column(table, c)
}

/// Whether the conditions can be checked without converting a value.
pub open spec fn are_checkable(table: Table, conditions: Seq<Column>, values: Seq<Value>) -> bool {
    &&& values.len() == conditions.len()
    &&& forall|i: int|
        0 <= i < conditions.len() ==> suits(table, #[trigger] conditions[i], values[i])
}

/// Whether the terms can be put into the columns without converting a value. The placeholders take
/// the first of the values.
pub open spec fn are_storable(
    table: Table,
    columns: Seq<Column>,
    terms: Seq<Term>,
    binds: Seq<Value>,
) -> bool {
    &&& bound_below(terms, terms.len() as int) <= binds.len()
    &&& forall|j: int|
        0 <= j < columns.len() ==> match terms[j] {
            Term::Bound => suits(table, #[trigger] columns[j], binds[bound_below(terms, j)]),
            Term::Word(word) => suits(table, columns[j], Value::Text(word)),
            Term::Now => suits(table, columns[j], Value::Text(seq![])),
        }
}

/// Whether it is known what a statement with these values does: its table and columns exist, there
/// is a value for each placeholder and no other, and no value has to be converted.
pub open spec fn is_understood(db: Database, statement: Statement, binds: Seq<Value>) -> bool {
    match statement {
        Statement::Insert { table, columns, terms } => {
            &&& db.tables.contains_key(table)
            &&& binds.len() == bound_below(terms, terms.len() as int)
            &&& are_storable(db.tables[table], columns, terms, binds)
        },
        Statement::Select { columns, table, conditions, order } => {
            &&& db.tables.contains_key(table)
            &&& forall|i: int|
                0 <= i < columns.len() ==> has_column(db.tables[table], #[trigger] columns[i])
            &&& are_checkable(db.tables[table], conditions, binds)
            &&& order matches Some(column) ==> has_column(db.tables[table], column)
        },
        Statement::Update { table, columns, terms, conditions } => {
            let n = bound_below(terms, terms.len() as int);
            &&& db.tables.contains_key(table)
            &&& n <= binds.len()
            &&& are_storable(db.tables[table], columns, terms, binds)
            &&& are_checkable(db.tables[table], conditions, binds.skip(n))
            // No uniqueness is touched.
            &&& forall|j: int, u: int|
                0 <= j < columns.len() && 0 <= u < db.tables[table].unique.len()
                    ==> !(#[trigger] db.tables[table].unique[u]).contains(#[trigger] columns[j])
        },
        Statement::Delete { table, conditions } => {
            &&& db.tables.contains_key(table)
            &&& are_checkable(db.tables[table], conditions, binds)
        },
        Statement::CreateTable { .. } => binds.len() == 0,
        Statement::AddColumn { table, def } => {
            &&& binds.len() == 0
            &&& db.tables.contains_key(table)
            &&& !def.primary_key && !def.not_null && !def.now
        },
        Statement::CreateUniqueIndex { table, columns, .. } => {
            &&& binds.len() == 0
            &&& db.tables.contains_key(table)
            &&& forall|i: int|
                0 <= i < columns.len() ==> has_column(db.tables[table], #[trigger] columns[i])
        },
    }
}

/// Whether two rows of a table agree in some columns.
pub open spec fn has_duplicates(table: Table, columns: Seq<Column>) -> bool {
    exists|a: int, b: int|
        table.rows.contains_key(a) && table.rows.contains_key(b) && a != b && #[trigger] agree(
            table.rows[a],
            table.rows[b],
            columns,
        )
}

/// Whether a statement that is understood is refused: a row that it would add breaks a constraint, a
/// column that it would add is there, or rows are there that an index would not admit.
pub open spec fn is_refused(db: Database, statement: Statement, binds: Seq<Value>) -> bool {
    match statement {
        Statement::Insert { table, columns, terms } => forall|row: Row| #[trigger]
            is_made_row(db.tables[table], columns, terms, binds, row) ==> !admits(
                db.tables[table],
                row,
            ),
        Statement::AddColumn { table, def } => has_column(db.tables[table], def.column),
        Statement::CreateUniqueIndex { name, table, columns } => !db.indexes.contains(name)
            && has_duplicates(db.tables[table], columns),
        _ => false,
    }
}

/// A table with other rows.
pub open spec fn with_rows(db: Database, table: TableName, rows: Map<int, Row>) -> Database {
    Database {
        tables: db.tables.insert(table, Table { rows, ..db.tables[table] }),
        ..db
    }
}

/// Whether `keys` are the numbers of the rows that meet the conditions, each once, in the order
/// that is asked for.
pub open spec fn selects(
    table: Table,
    conditions: Seq<Column>,
    values: Seq<Value>,
    order: Option<Column>,
    keys: Seq<int>,
) -> bool {
    &&& forall|i: int|
        0 <= i < keys.len() ==> table.rows.contains_key(#[trigger] keys[i]) && meets(
            table.rows[keys[i]],
            conditions,
            values,
        )
    &&& forall|i: int, j: int| 0 <= i < j < keys.len() ==> keys[i] != keys[j]
    &&& forall|k: int| #[trigger]
        table.rows.contains_key(k) && meets(table.rows[k], conditions, values) ==> keys.contains(k)
    &&& order matches Some(column) ==> forall|i: int, j: int|
        0 <= i < j < keys.len() ==> match (
            table.rows[#[trigger] keys[i]][column],
            table.rows[#[trigger] keys[j]][column],
        ) {
            (Value::Integer(a), Value::Integer(b)) => a <= b,
            _ => true,
        }
}

/// The values of some columns of a row.
pub open spec fn projected(row: Row, columns: Seq<Column>) -> Seq<Value> {
    Seq::new(columns.len(), |i: int| row[columns[i]])
}

/// Whether `after` is `rows` with the terms put into those rows that meet the conditions.
pub open spec fn are_updated(
    rows: Map<int, Row>,
    columns: Seq<Column>,
    terms: Seq<Term>,
    conditions: Seq<Column>,
    binds: Seq<Value>,
    after: Map<int, Row>,
) -> bool {
    let values = binds.skip(bound_below(terms, terms.len() as int));
    &&& forall|k: int|
        #![trigger after.contains_key(k)]
        #![trigger rows.contains_key(k)]
        after.contains_key(k) <==> rows.contains_key(k)
    &&& forall|k: int| #[trigger]
        rows.contains_key(k) ==> if meets(rows[k], conditions, values) {
            &&& forall|j: int|
                0 <= j < columns.len() ==> is_value_of(
                    terms,
                    j,
                    binds,
                    after[k][#[trigger] columns[j]],
                )
            &&& forall|c: Column| !columns.contains(c) ==> #[trigger] after[k][c] == rows[k][c]
            &&& forall|c: Column| #[trigger]
                after[k].contains_key(c) <==> rows[k].contains_key(c)
        } else {
            after[k] == rows[k]
        }
}

/// The constraints of a new table: the columns that are keys by themselves, and the key.
pub open spec fn constraints(columns: Seq<ColumnDef>, key: Seq<Column>) -> Seq<Seq<Column>>
    decreases columns.len(),
{
    if columns.len() == 0 {
        if key.len() > 0 {
            seq![key]
        } else {
            seq![]
        }
    } else {
        let rest = constraints(columns.drop_first(), key);
        if columns[0].primary_key {
            seq![seq![columns[0].column]] + rest
        } else {
            rest
        }
    }
}

/// What a statement does that is understood and not refused, and the rows that it gives.
pub open spec fn does(
    db: Database,
    statement: Statement,
    binds: Seq<Value>,
    result: Seq<Seq<Value>>,
    after: Database,
) -> bool {
    match statement {
        Statement::Insert { table, columns, terms } => {
            exists|k: int, row: Row|
                {
                    &&& !db.tables[table].rows.contains_key(k)
                    &&& #[trigger] is_made_row(db.tables[table], columns, terms, binds, row)
                    &&& admits(db.tables[table], row)
                    &&& after == with_rows(
                        db,
                        table,
                        #[trigger] db.tables[table].rows.insert(k, row),
                    )
                }
        },
        Statement::Select { columns, table, conditions, order } => {
            &&& after == db
            &&& exists|keys: Seq<int>| #[trigger]
                selects(db.tables[table], conditions, binds, order, keys) && result == Seq::new(
                    keys.len(),
                    |i: int| projected(db.tables[table].rows[keys[i]], columns),
                )
        },
        Statement::Update { table, columns, terms, conditions } => {
            &&& after == with_rows(db, table, after.tables[table].rows)
            &&& are_updated(
                db.tables[table].rows,
                columns,
                terms,
                conditions,
                binds,
                after.tables[table].rows,
            )
        },
        Statement::Delete { table, conditions } => {
            let rows = db.tables[table].rows;
            let kept = after.tables[table].rows;
            &&& after == with_rows(db, table, kept)
            &&& forall|k: int| #[trigger]
                kept.contains_key(k) <==> rows.contains_key(k) && !meets(
                    rows[k],
                    conditions,
                    binds,
                )
            &&& forall|k: int| #[trigger] kept.contains_key(k) ==> kept[k] == rows[k]
        },
        Statement::CreateTable { table, defs, key } => after == (if db.tables.contains_key(
            table,
        ) {
            db
        } else {
            Database {
                tables: db.tables.insert(
                    table,
                    Table {
                        columns: defs,
                        unique: constraints(defs, key),
                        rows: Map::empty(),
                    },
                ),
                ..db
            }
        }),
        Statement::AddColumn { table, def } => after == (Database {
            tables: db.tables.insert(
                table,
                Table {
                    columns: db.tables[table].columns.push(def),
                    rows: db.tables[table].rows.map_values(
                        |row: Row| row.insert(def.column, Value::Null),
                    ),
                    ..db.tables[table]
                },
            ),
            ..db
        }),
        Statement::CreateUniqueIndex { name, table, columns } => after == (if db.indexes.contains(
            name,
        ) {
            db
        } else {
            Database {
                tables: db.tables.insert(
                    table,
                    Table {
                        unique: db.tables[table].unique.push(columns),
                        ..db.tables[table]
                    },
                ),
                indexes: db.indexes.insert(name),
            }
        }),
    }
}

} // verus!
