//! What the statements make of the tables of a knowledge base, where the engine does
//! what they say.

use crate::store::{
    creation_sql, creations, doc_md_upsert, doc_upsert, src_upsert, table_creation, upsert_sql,
    StatementModel, Table,
};
use vstd::prelude::*;

verus! {

/// A row, but for its path: the content, and what the content is. The latter is the
/// language of a source and the kind of a document.
pub struct Row {
    pub content: Seq<char>,
    pub tag: Seq<char>,
}

/// A table: its columns, the one among them that is the primary key, and its rows by
/// that key.
pub struct TableState {
    pub columns: Seq<Seq<char>>,
    pub key: Seq<char>,
    pub rows: Map<Seq<char>, Row>,
}

/// The tables that a knowledge base has.
pub struct KnowledgeBase {
    pub tables: Map<Table, TableState>,
}

/// A table as it is created.
pub open spec fn new_table(table: Table) -> TableState {
    TableState {
        columns: seq![
            "path"@,
            "content"@,
            if table == Table::Src {
                "lang"@
            } else {
                "kind"@
            },
        ],
        key: "path"@,
        rows: Map::empty(),
    }
}

/// The row that an upsert writes. Its values are parameters, but for the kind of a
/// Markdown document, which the statement itself holds.
pub open spec fn row_of(statement: StatementModel) -> Row {
    Row {
        content: statement.params[1],
        tag: if statement.table == Table::DocsMd {
            "markdown"@
        } else {
            statement.params[2]
        },
    }
}

/// A knowledge base after a statement. A table is created where there is none, and an
/// upsert leaves one row for its path; a statement that is neither, and an upsert
/// into a table that there is not, leave it as it is.
pub open spec fn after(kb: KnowledgeBase, statement: StatementModel) -> KnowledgeBase {
    let table = statement.table;
    if statement.sql == creation_sql(table) {
        if kb.tables.contains_key(table) {
            kb
        } else {
            KnowledgeBase { tables: kb.tables.insert(table, new_table(table)) }
        }
    } else if statement.sql == upsert_sql(table) && kb.tables.contains_key(table) {
        let held = kb.tables[table];
        KnowledgeBase {
            tables: kb.tables.insert(
                table,
                TableState {
                    rows: held.rows.insert(statement.params[0], row_of(statement)),
                    ..held
                },
            ),
        }
    } else {
        kb
    }
}

/// A knowledge base after statements, one after another.
pub open spec fn after_all(kb: KnowledgeBase, statements: Seq<StatementModel>) -> KnowledgeBase
    decreases statements.len(),
{
    if statements.len() == 0 {
        kb
    } else {
        after(after_all(kb, statements.drop_last()), statements.last())
    }
}

/// Whether a knowledge base has all the tables.
pub open spec fn has_tables(kb: KnowledgeBase) -> bool {
    forall|table: Table| #[trigger] kb.tables.contains_key(table)
}

proof fn lemma_no_upsert_creates(table: Table)
    ensures
        creation_sql(table) != upsert_sql(table),
{
    reveal_strlit("INSERT INTO src (path, content, lang) VALUES ($1, $2, $3) ON CONFLICT(path) DO UPDATE SET content = excluded.content, lang = excluded.lang");
    reveal_strlit("INSERT INTO docs_md (path, content, kind) VALUES ($1, $2, 'markdown') ON CONFLICT(path) DO UPDATE SET content = excluded.content, kind = excluded.kind");
    reveal_strlit("INSERT INTO docs (path, content, kind) VALUES ($1, $2, $3) ON CONFLICT(path) DO UPDATE SET content = excluded.content, kind = excluded.kind");
    reveal_strlit("CREATE TABLE IF NOT EXISTS docs (\n            path     TEXT PRIMARY KEY,\n            content  TEXT,\n            kind     TEXT\n        )");
    reveal_strlit("CREATE TABLE IF NOT EXISTS docs_md (\n            path     TEXT PRIMARY KEY,\n            content  TEXT,\n            kind     TEXT\n        )");
    reveal_strlit("CREATE TABLE IF NOT EXISTS src (\n            path     TEXT PRIMARY KEY,\n            content  TEXT,\n            lang     TEXT\n        )");
    assert(creation_sql(table)[0] == 'C');
    assert(upsert_sql(table)[0] == 'I');
}

/// No statement removes a table, nor changes its columns or its key.
pub proof fn law_tables_stay(kb: KnowledgeBase, statements: Seq<StatementModel>, table: Table)
    requires
        kb.tables.contains_key(table),
    ensures
        after_all(kb, statements).tables.contains_key(table),
        after_all(kb, statements).tables[table].columns == kb.tables[table].columns,
        after_all(kb, statements).tables[table].key == kb.tables[table].key,
    decreases statements.len(),
{
    if statements.len() > 0 {
        law_tables_stay(kb, statements.drop_last(), table);
    }
}

proof fn lemma_creations(kb: KnowledgeBase)
    ensures
        after_all(kb, creations()) == after(
            after(after(kb, table_creation(Table::Src)), table_creation(Table::Docs)),
            table_creation(Table::DocsMd),
        ),
{
    let all = creations();
    let two = all.drop_last();
    let one = two.drop_last();
    assert(all.last() == table_creation(Table::DocsMd));
    assert(two.last() == table_creation(Table::Docs));
    assert(one.last() == table_creation(Table::Src));
    assert(one.drop_last() =~= Seq::<StatementModel>::empty());
    reveal_with_fuel(after_all, 4);
}

/// Creating the tables leaves a knowledge base with all of them: those that it had as
/// they were, and the others with a path for their key, with the columns for content
/// and for what it is, and without rows.
pub proof fn law_tables_are_created(kb: KnowledgeBase, table: Table)
    ensures
        has_tables(after_all(kb, creations())),
        after_all(kb, creations()).tables[table] == if kb.tables.contains_key(table) {
            kb.tables[table]
        } else {
            new_table(table)
        },
{
    lemma_creations(kb);
    let made = after_all(kb, creations());
    assert forall|other: Table| #[trigger] made.tables.contains_key(other) by {
        match other {
            Table::Src => {},
            Table::Docs => {},
            Table::DocsMd => {},
        }
    }
}

/// Once the tables were created, whatever statements came since, they are there with
/// their key and their columns, unless they had others before; and creating them once
/// more changes no table and no row.
pub proof fn law_tables_are_created_once(
    kb: KnowledgeBase,
    since: Seq<StatementModel>,
    table: Table,
)
    ensures
        ({
            let later = after_all(after_all(kb, creations()), since);
            &&& has_tables(later)
            &&& !kb.tables.contains_key(table) ==> later.tables[table].columns == new_table(
                table,
            ).columns && later.tables[table].key == new_table(table).key
            &&& after_all(later, creations()) == later
        }),
{
    let made = after_all(kb, creations());
    let later = after_all(made, since);
    law_tables_are_created(kb, table);
    assert forall|other: Table| #[trigger] later.tables.contains_key(other) by {
        assert(made.tables.contains_key(other));
        law_tables_stay(made, since, other);
    }
    assert(made.tables.contains_key(table));
    law_tables_stay(made, since, table);
    lemma_creations(later);
    assert(later.tables.contains_key(Table::Src));
    assert(later.tables.contains_key(Table::Docs));
    assert(later.tables.contains_key(Table::DocsMd));
}

/// Whether two knowledge bases differ in one row at most.
pub open spec fn differs_only_at(
    one: KnowledgeBase,
    other: KnowledgeBase,
    table: Table,
    path: Seq<char>,
) -> bool {
    other == (KnowledgeBase {
        tables: one.tables.insert(
            table,
            TableState {
                rows: one.tables[table].rows.insert(path, other.tables[table].rows[path]),
                ..one.tables[table]
            },
        ),
    })
}

/// What was stored is there: an upsert leaves its content under its path, with the
/// language of a source, the kind of a document, and `markdown` for a Markdown
/// document; and it changes no other row.
pub proof fn law_upserts_are_kept(
    kb: KnowledgeBase,
    path: Seq<char>,
    content: Seq<char>,
    tag: Seq<char>,
)
    requires
        has_tables(kb),
    ensures
        ({
            let done = after(kb, src_upsert(path, content, tag));
            &&& done.tables[Table::Src].rows.contains_key(path)
            &&& done.tables[Table::Src].rows[path] == (Row { content, tag })
            &&& differs_only_at(kb, done, Table::Src, path)
        }),
        ({
            let done = after(kb, doc_upsert(path, content, tag));
            &&& done.tables[Table::Docs].rows.contains_key(path)
            &&& done.tables[Table::Docs].rows[path] == (Row { content, tag })
            &&& differs_only_at(kb, done, Table::Docs, path)
        }),
        ({
            let done = after(kb, doc_md_upsert(path, content));
            &&& done.tables[Table::DocsMd].rows.contains_key(path)
            &&& done.tables[Table::DocsMd].rows[path] == (Row { content, tag: "markdown"@ })
            &&& differs_only_at(kb, done, Table::DocsMd, path)
        }),
{
    lemma_no_upsert_creates(Table::Src);
    lemma_no_upsert_creates(Table::Docs);
    lemma_no_upsert_creates(Table::DocsMd);
    assert(kb.tables.contains_key(Table::Src));
    assert(kb.tables.contains_key(Table::Docs));
    assert(kb.tables.contains_key(Table::DocsMd));
}

proof fn lemma_rows_settle(
    one: KnowledgeBase,
    other: KnowledgeBase,
    statements: Seq<StatementModel>,
    table: Table,
    path: Seq<char>,
)
    requires
        has_tables(one),
        has_tables(other),
    ensures
        ({
            let a = after_all(one, statements).tables[table].rows;
            let b = after_all(other, statements).tables[table].rows;
            let c = one.tables[table].rows;
            let d = other.tables[table].rows;
            ||| a.contains_key(path) && b.contains_key(path) && a[path] == b[path]
            ||| a.contains_key(path) == c.contains_key(path) && a[path] == c[path]
                && b.contains_key(path) == d.contains_key(path) && b[path] == d[path]
        }),
    decreases statements.len(),
{
    if statements.len() > 0 {
        let before = statements.drop_last();
        let last = statements.last();
        lemma_rows_settle(one, other, before, table, path);
        assert(one.tables.contains_key(last.table));
        assert(other.tables.contains_key(last.table));
        law_tables_stay(one, before, last.table);
        law_tables_stay(other, before, last.table);
    }
}

/// On a knowledge base that has the tables, statements can be repeated: doing them a
/// second time leaves every table and every row as it was.
pub proof fn law_statements_can_be_repeated(kb: KnowledgeBase, statements: Seq<StatementModel>)
    requires
        has_tables(kb),
    ensures
        after_all(after_all(kb, statements), statements) == after_all(kb, statements),
{
    let once = after_all(kb, statements);
    assert forall|table: Table| #[trigger] once.tables.contains_key(table) by {
        assert(kb.tables.contains_key(table));
        law_tables_stay(kb, statements, table);
    }
    let twice = after_all(once, statements);
    assert forall|table: Table|
        #![trigger once.tables[table]]
        #![trigger twice.tables[table]]
        twice.tables.contains_key(table) && once.tables[table] == twice.tables[table] by {
        assert(once.tables.contains_key(table));
        law_tables_stay(once, statements, table);
        let a = once.tables[table].rows;
        let b = twice.tables[table].rows;
        assert forall|path: Seq<char>|
            #![trigger a.dom().contains(path)]
            #![trigger b.dom().contains(path)]
            #![trigger a[path]]
            a.dom().contains(path) == b.dom().contains(path) && (a.dom().contains(path) ==> a[path]
                == b[path]) by {
            lemma_rows_settle(kb, once, statements, table, path);
        }
        assert(a.dom() =~= b.dom());
        assert(a =~= b);
    }
    assert forall|table: Table| #[trigger] twice.tables.contains_key(table) by {
        assert(once.tables.contains_key(table));
        law_tables_stay(once, statements, table);
    }
    assert(once.tables.dom() =~= twice.tables.dom());
    assert(once.tables =~= twice.tables);
}

} // verus!
