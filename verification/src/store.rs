//! The tables of the knowledge base and the statements that fill them.

use crate::text::texts;
use vstd::prelude::*;

verus! {

/// A table that an ingest run fills.
#[derive(Debug, Clone, Copy, PartialEq, Eq, Structural)]
pub enum Table {
    /// Sources, by path, with their language.
    Src,
    /// Documents that are retrieved whole.
    Docs,
    /// Markdown documents, which are cut at their headings.
    DocsMd,
}

/// The name of a table.
pub open spec fn name_of_table(table: Table) -> Seq<char> {
    match table {
        Table::Src => "src"@,
        Table::Docs => "docs"@,
        Table::DocsMd => "docs_md"@,
    }
}

/// The name of a table.
pub fn table_name(table: Table) -> (r: &'static str)
    ensures
        r@ == name_of_table(table),
{
    match table {
        Table::Src => "src",
        Table::Docs => "docs",
        Table::DocsMd => "docs_md",
    }
}

/// The query for the number of rows of a table.
pub fn count_query(table: Table) -> (r: String)
    ensures
        r@ == "SELECT count(*) FROM "@ + name_of_table(table),
{
    "SELECT count(*) FROM ".to_owned().concat(table_name(table))
}

/// A statement for the engine.
#[derive(Debug)]
pub struct Statement {
    /// The table that it creates or fills.
    pub table: Table,
    pub sql: String,
    /// The values of `$1`, `$2` and so on.
    pub params: Vec<String>,
    /// What a failure of the statement is reported under.
    pub context: String,
}

/// A `Statement` over sequences.
pub struct StatementModel {
    pub table: Table,
    pub sql: Seq<char>,
    pub params: Seq<Seq<char>>,
    pub context: Seq<char>,
}

impl View for Statement {
    type V = StatementModel;

    open spec fn view(&self) -> StatementModel {
        StatementModel {
            table: self.table,
            sql: self.sql@,
            params: texts(self.params@),
            context: self.context@,
        }
    }
}

/// The statement that replaces or adds the row of a path in a table. The kind of a
/// Markdown document is part of it.
pub open spec fn upsert_sql(table: Table) -> Seq<char> {
    match table {
        Table::Src => "INSERT INTO src (path, content, lang) VALUES ($1, $2, $3) ON CONFLICT(path) DO UPDATE SET content = excluded.content, lang = excluded.lang"@,
        Table::Docs => "INSERT INTO docs (path, content, kind) VALUES ($1, $2, $3) ON CONFLICT(path) DO UPDATE SET content = excluded.content, kind = excluded.kind"@,
        Table::DocsMd => "INSERT INTO docs_md (path, content, kind) VALUES ($1, $2, 'markdown') ON CONFLICT(path) DO UPDATE SET content = excluded.content, kind = excluded.kind"@,
    }
}

/// Replaces or adds the row of a source.
pub open spec fn src_upsert(
    path: Seq<char>,
    content: Seq<char>,
    lang: Seq<char>,
) -> StatementModel {
    StatementModel {
        table: Table::Src,
        sql: upsert_sql(Table::Src),
        params: seq![path, content, lang],
        context: "upsert_src "@ + path,
    }
}

/// Replaces or adds the row of a Markdown document.
pub open spec fn doc_md_upsert(path: Seq<char>, content: Seq<char>) -> StatementModel {
    StatementModel {
        table: Table::DocsMd,
        sql: upsert_sql(Table::DocsMd),
        params: seq![path, content],
        context: "upsert_doc_md "@ + path,
    }
}

/// Replaces or adds the row of a document.
pub open spec fn doc_upsert(
    path: Seq<char>,
    content: Seq<char>,
    kind: Seq<char>,
) -> StatementModel {
    StatementModel {
        table: Table::Docs,
        sql: upsert_sql(Table::Docs),
        params: seq![path, content, kind],
        context: "upsert_doc "@ + path,
    }
}

/// The statement that stores a source.
pub fn upsert_src(path: &str, content: &str, lang: &str) -> (r: Statement)
    ensures
        r@ == src_upsert(path@, content@, lang@),
{
    let r = Statement {
        table: Table::Src,
        sql: "INSERT INTO src (path, content, lang) VALUES ($1, $2, $3) ON CONFLICT(path) DO UPDATE SET content = excluded.content, lang = excluded.lang".to_owned(),
        params: vec![path.to_owned(), content.to_owned(), lang.to_owned()],
        context: "upsert_src ".to_owned().concat(path),
    };
    assert(r@.params =~= seq![path@, content@, lang@]);
    r
}

/// The statement that stores a Markdown document.
pub fn upsert_doc_md(path: &str, content: &str) -> (r: Statement)
    ensures
        r@ == doc_md_upsert(path@, content@),
{
    let r = Statement {
        table: Table::DocsMd,
        sql: "INSERT INTO docs_md (path, content, kind) VALUES ($1, $2, 'markdown') ON CONFLICT(path) DO UPDATE SET content = excluded.content, kind = excluded.kind".to_owned(),
        params: vec![path.to_owned(), content.to_owned()],
        context: "upsert_doc_md ".to_owned().concat(path),
    };
    assert(r@.params =~= seq![path@, content@]);
    r
}

/// The statement that stores a document.
pub fn upsert_doc(path: &str, content: &str, kind: &str) -> (r: Statement)
    ensures
        r@ == doc_upsert(path@, content@, kind@),
{
    let r = Statement {
        table: Table::Docs,
        sql: "INSERT INTO docs (path, content, kind) VALUES ($1, $2, $3) ON CONFLICT(path) DO UPDATE SET content = excluded.content, kind = excluded.kind".to_owned(),
        params: vec![path.to_owned(), content.to_owned(), kind.to_owned()],
        context: "upsert_doc ".to_owned().concat(path),
    };
    assert(r@.params =~= seq![path@, content@, kind@]);
    r
}

/// The statement that creates a table, unless it exists: its key is the path, and its
/// third column tells what the content is.
pub open spec fn creation_sql(table: Table) -> Seq<char> {
    match table {
        Table::Src => "CREATE TABLE IF NOT EXISTS src (\n            path     TEXT PRIMARY KEY,\n            content  TEXT,\n            lang     TEXT\n        )"@,
        Table::Docs => "CREATE TABLE IF NOT EXISTS docs (\n            path     TEXT PRIMARY KEY,\n            content  TEXT,\n            kind     TEXT\n        )"@,
        Table::DocsMd => "CREATE TABLE IF NOT EXISTS docs_md (\n            path     TEXT PRIMARY KEY,\n            content  TEXT,\n            kind     TEXT\n        )"@,
    }
}

/// Creates a table, unless it exists.
pub open spec fn table_creation(table: Table) -> StatementModel {
    StatementModel {
        table,
        sql: creation_sql(table),
        params: Seq::empty(),
        context: "create "@ + name_of_table(table) + " table"@,
    }
}

fn create_table(table: Table) -> (r: Statement)
    ensures
        r@ == table_creation(table),
{
    let sql: &str = match table {
        Table::Src => "CREATE TABLE IF NOT EXISTS src (\n            path     TEXT PRIMARY KEY,\n            content  TEXT,\n            lang     TEXT\n        )",
        Table::Docs => "CREATE TABLE IF NOT EXISTS docs (\n            path     TEXT PRIMARY KEY,\n            content  TEXT,\n            kind     TEXT\n        )",
        Table::DocsMd => "CREATE TABLE IF NOT EXISTS docs_md (\n            path     TEXT PRIMARY KEY,\n            content  TEXT,\n            kind     TEXT\n        )",
    };
    let r = Statement {
        table,
        sql: sql.to_owned(),
        params: Vec::new(),
        context: "create ".to_owned().concat(table_name(table)).concat(" table"),
    };
    assert(r@.params =~= Seq::<Seq<char>>::empty());
    r
}

/// The statements that create the tables of a knowledge base, in order.
pub open spec fn creations() -> Seq<StatementModel> {
    seq![
        table_creation(Table::Src),
        table_creation(Table::Docs),
        table_creation(Table::DocsMd),
    ]
}

/// The statements that create the tables of a knowledge base, in order.
pub fn ensure_tables() -> (r: Vec<Statement>)
    ensures
        r@.map_values(|s: Statement| s@) == creations(),
{
    let r: Vec<Statement> = vec![
        create_table(Table::Src),
        create_table(Table::Docs),
        create_table(Table::DocsMd),
    ];
    assert(r@.map_values(|s: Statement| s@) =~= creations());
    r
}

/// A cell of the answer to a row count.
#[derive(Debug, Clone, Copy)]
pub enum CountCell {
    Int4(i32),
    Int8(i64),
    /// A cell of any other type.
    Other,
}

/// The number that a count cell stands for: a negative one wraps around, and a
/// cell that is no integer counts as zero.
pub open spec fn count_of(cell: CountCell) -> int {
    match cell {
        CountCell::Int4(v) => if v < 0 {
            v + 0x1_0000_0000_0000_0000
        } else {
            v as int
        },
        CountCell::Int8(v) => if v < 0 {
            v + 0x1_0000_0000_0000_0000
        } else {
            v as int
        },
        CountCell::Other => 0,
    }
}

/// The number of rows that a count cell gives.
pub fn row_count(cell: CountCell) -> (r: u64)
    ensures
        r == count_of(cell),
{
    match cell {
        CountCell::Int4(v) => {
            assert(v < 0 ==> v as u64 == v + 0x1_0000_0000_0000_0000) by (bit_vector);
            v as u64
        },
        CountCell::Int8(v) => {
            assert(v < 0 ==> v as u64 == v + 0x1_0000_0000_0000_0000) by (bit_vector);
            v as u64
        },
        CountCell::Other => 0,
    }
}

} // verus!
