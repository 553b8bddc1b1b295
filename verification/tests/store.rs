use codekb_ingest::settings::{open_kb_for_ingest, WalSyncMode};
use codekb_ingest::store::{
    count_query, ensure_tables, row_count, table_name, upsert_doc, upsert_doc_md, upsert_src,
    CountCell, Statement, Table,
};
use std::collections::BTreeMap;

#[test]
fn tables_have_names_and_counts() {
    assert_eq!(table_name(Table::Src), "src");
    assert_eq!(table_name(Table::Docs), "docs");
    assert_eq!(table_name(Table::DocsMd), "docs_md");
    assert_eq!(count_query(Table::Src), "SELECT count(*) FROM src");
    assert_eq!(count_query(Table::DocsMd), "SELECT count(*) FROM docs_md");
}

#[test]
fn tables_are_created_where_missing() {
    let statements = ensure_tables();
    assert_eq!(statements.len(), 3);
    let words: Vec<Vec<&str>> = statements
        .iter()
        .map(|s| s.sql.split_whitespace().collect())
        .collect();
    assert_eq!(
        words[0].join(" "),
        "CREATE TABLE IF NOT EXISTS src ( path TEXT PRIMARY KEY, content TEXT, lang TEXT )"
    );
    assert_eq!(
        words[1].join(" "),
        "CREATE TABLE IF NOT EXISTS docs ( path TEXT PRIMARY KEY, content TEXT, kind TEXT )"
    );
    assert_eq!(
        words[2].join(" "),
        "CREATE TABLE IF NOT EXISTS docs_md ( path TEXT PRIMARY KEY, content TEXT, kind TEXT )"
    );
    assert_eq!(statements[0].context, "create src table");
    assert_eq!(statements[1].context, "create docs table");
    assert_eq!(statements[2].context, "create docs_md table");
    assert!(statements.iter().all(|s| s.params.is_empty()));
}

#[test]
fn a_source_is_upserted() {
    let s = upsert_src("src/a.rs", "fn a() {}", "rust");
    assert_eq!(
        s.sql,
        "INSERT INTO src (path, content, lang) VALUES ($1, $2, $3) \
         ON CONFLICT(path) DO UPDATE SET content = excluded.content, lang = excluded.lang"
    );
    assert_eq!(s.params, vec!["src/a.rs", "fn a() {}", "rust"]);
    assert_eq!(s.context, "upsert_src src/a.rs");
    assert_eq!(s.table, Table::Src);
}

#[test]
fn a_markdown_document_is_upserted() {
    let s = upsert_doc_md("README.md", "# Title");
    assert_eq!(
        s.sql,
        "INSERT INTO docs_md (path, content, kind) VALUES ($1, $2, 'markdown') \
         ON CONFLICT(path) DO UPDATE SET content = excluded.content, kind = excluded.kind"
    );
    assert_eq!(s.params, vec!["README.md", "# Title"]);
    assert_eq!(s.context, "upsert_doc_md README.md");
    assert_eq!(s.table, Table::DocsMd);
}

#[test]
fn a_document_is_upserted() {
    let s = upsert_doc("a.txt", "text of a", "text");
    assert_eq!(
        s.sql,
        "INSERT INTO docs (path, content, kind) VALUES ($1, $2, $3) \
         ON CONFLICT(path) DO UPDATE SET content = excluded.content, kind = excluded.kind"
    );
    assert_eq!(s.params, vec!["a.txt", "text of a", "text"]);
    assert_eq!(s.context, "upsert_doc a.txt");
    assert_eq!(s.table, Table::Docs);
}

#[test]
fn count_cells_are_read() {
    assert_eq!(row_count(CountCell::Int4(7)), 7);
    assert_eq!(row_count(CountCell::Int8(1 << 40)), 1 << 40);
    assert_eq!(row_count(CountCell::Other), 0);
    assert_eq!(row_count(CountCell::Int4(-1)), u64::MAX);
    assert_eq!(row_count(CountCell::Int8(i64::MIN)), 1 << 63);
}

#[test]
fn the_log_is_synced_in_the_background_unless_durable() {
    let fast = open_kb_for_ingest("/kb", false);
    assert_eq!(fast.path, "/kb");
    assert!(!fast.memory_only);
    assert_eq!(fast.wal_sync_mode, WalSyncMode::Async);
    let durable = open_kb_for_ingest("/kb", true);
    assert_eq!(durable.wal_sync_mode, WalSyncMode::Sync);
    assert!(!durable.memory_only);
}

type Rows = BTreeMap<String, (String, String)>;

/// Does what a statement says, in memory.
fn execute(tables: &mut BTreeMap<&'static str, Rows>, statement: &Statement) {
    let name = table_name(statement.table);
    if statement.sql.starts_with(&format!("CREATE TABLE IF NOT EXISTS {name} (")) {
        tables.entry(name).or_default();
    } else {
        assert!(statement.sql.starts_with(&format!("INSERT INTO {name} (")));
        assert!(statement.sql.contains("ON CONFLICT(path) DO UPDATE"));
        let p = &statement.params;
        let tag = if statement.sql.contains("'markdown'") { "markdown" } else { &p[2] };
        let row = (p[1].clone(), tag.to_string());
        tables.get_mut(name).unwrap().insert(p[0].clone(), row);
    }
}

#[test]
fn statements_can_be_repeated() {
    let mut tables = BTreeMap::new();
    let upserts = [
        upsert_src("a.md", "# A", "markdown"),
        upsert_doc_md("a.md", "# A"),
        upsert_doc("b.txt", "old", "text"),
        upsert_doc("b.txt", "new", "text"),
    ];
    for statement in ensure_tables().iter().chain(&upserts) {
        execute(&mut tables, statement);
    }
    assert_eq!(tables.len(), 3);
    let row = |content: &str, tag: &str| (content.to_string(), tag.to_string());
    assert_eq!(tables["src"]["a.md"], row("# A", "markdown"));
    assert_eq!(tables["docs_md"]["a.md"], row("# A", "markdown"));
    assert_eq!(tables["docs"]["b.txt"], row("new", "text"));
    let once = tables.clone();
    for statement in &ensure_tables() {
        execute(&mut tables, statement);
    }
    assert_eq!(tables, once);
    for statement in &upserts {
        execute(&mut tables, statement);
    }
    assert_eq!(tables, once);
}
