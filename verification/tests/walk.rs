use codekb_ingest::classify::classify;
use codekb_ingest::documents::{Block, ParagraphItem, RunItem, Sheet};
use codekb_ingest::generated::load_linguist_generated_globset;
use codekb_ingest::store::{Statement, Table};
use codekb_ingest::summary::IngestSummary;
use codekb_ingest::walk::{
    file_content, file_statements, keep_entry, progress_due, walk_and_upsert, Loaded, Pending,
    Source, Walk, WalkAction, WalkEvent, MAX_FILE_BYTES,
};

type Summary = IngestSummary<u8, u8, u8>;

fn walk() -> Walk {
    Walk::new("/repo", true, true, None)
}

fn entry(path: &str) -> WalkEvent {
    WalkEvent::Entry {
        path: path.to_string(),
        is_file: true,
    }
}

fn bytes(text: &str) -> Loaded {
    Loaded::Bytes(Ok(text.as_bytes().to_vec()))
}

/// Takes a file of ten bytes without a marker to the point where it is loaded.
fn approach(walk: &mut Walk, summary: &mut Summary, path: &str) -> WalkAction {
    let action = walk_and_upsert(walk, summary, entry(path));
    assert!(matches!(action, WalkAction::Stat));
    match walk_and_upsert(walk, summary, WalkEvent::Size(Some(10))) {
        WalkAction::Peek => walk_and_upsert(walk, summary, WalkEvent::Head(Some(b"plain".to_vec()))),
        other => other,
    }
}

fn statement(action: WalkAction) -> Statement {
    match action {
        WalkAction::Store(statement) => statement,
        other => panic!("{other:?}"),
    }
}

fn paragraph(text: &str) -> Loaded {
    let run = ParagraphItem::Run(vec![RunItem::Text(text.to_string())]);
    Loaded::Blocks(Ok(Ok(vec![Block::Paragraph(vec![run])])))
}

/// Tells that statements succeeded until none is handed out.
fn store_all(walk: &mut Walk, summary: &mut Summary, action: WalkAction) -> Vec<Statement> {
    let mut stored = vec![];
    let mut action = action;
    loop {
        match action {
            WalkAction::Store(statement) => stored.push(statement),
            WalkAction::Next => return stored,
            other => panic!("{other:?}"),
        }
        action = walk_and_upsert(walk, summary, WalkEvent::Stored(true));
    }
}

fn load(path: &str, source: Source, loaded: Loaded) -> (Vec<Statement>, Summary) {
    let mut walk = walk();
    let mut summary = Summary::default();
    match approach(&mut walk, &mut summary, path) {
        WalkAction::Load(wanted) => assert_eq!(wanted, source),
        other => panic!("{other:?}"),
    }
    let action = walk_and_upsert(&mut walk, &mut summary, WalkEvent::Loaded(loaded));
    let stored = store_all(&mut walk, &mut summary, action);
    assert!(matches!(walk.pending, Pending::Idle));
    assert_eq!(summary.files_seen, 1);
    (stored, summary)
}

fn error(path: &str, source: Source, loaded: Loaded) -> String {
    let (statements, summary) = load(path, source, loaded);
    assert!(statements.is_empty());
    assert_eq!(summary.read_errors, 1);
    assert_eq!(summary.read_error_samples.len(), 1);
    summary.read_error_samples[0].clone()
}

#[test]
fn code_is_stored_as_a_source() {
    let (stored, summary) = load("/repo/src/a.rs", Source::Bytes, bytes("fn a() {}"));
    assert_eq!(stored.len(), 1);
    assert!(stored[0].sql.starts_with("INSERT INTO src "));
    assert_eq!(stored[0].params, vec!["src/a.rs", "fn a() {}", "rust"]);
    assert_eq!(summary.code_upserts, 1);
    assert_eq!((summary.doc_upserts, summary.md_doc_upserts, summary.skipped), (0, 0, 0));
}

#[test]
fn markdown_is_stored_twice() {
    let (stored, summary) = load("/repo/README.md", Source::Bytes, bytes("# T"));
    assert_eq!(stored.len(), 2);
    assert_eq!(stored[0].params, vec!["README.md", "# T", "markdown"]);
    assert!(stored[1].sql.starts_with("INSERT INTO docs_md "));
    assert_eq!(stored[1].params, vec!["README.md", "# T"]);
    assert_eq!((summary.code_upserts, summary.md_doc_upserts), (1, 1));
}

#[test]
fn text_is_stored_as_a_document() {
    let (stored, summary) = load("/repo/a.txt", Source::Bytes, bytes(""));
    assert!(stored[0].sql.starts_with("INSERT INTO docs "));
    assert_eq!(stored[0].params, vec!["a.txt", "", "text"]);
    assert_eq!((summary.doc_upserts, summary.code_upserts), (1, 0));
}

#[test]
fn a_notebook_is_stored_as_a_source() {
    let body = r#"{"cells":[{"cell_type":"code","source":"x"}],"metadata":{"kernelspec":{"language":"rust"}}}"#;
    let (stored, summary) = load("/repo/n.ipynb", Source::Body, Loaded::Body(Some(body.to_string())));
    assert_eq!(stored[0].params, vec!["n.ipynb", "x\n", "rust"]);
    assert_eq!(summary.code_upserts, 1);
}

#[test]
fn binary_documents_are_stored_by_kind() {
    let (stored, summary) = load("/repo/a.pdf", Source::Pdf, Loaded::Pdf(Ok("page".to_string())));
    assert_eq!(stored[0].params, vec!["a.pdf", "page", "pdf"]);
    assert_eq!(summary.binary_upserts, 1);

    let sheets = vec![Sheet {
        name: "S".to_string(),
        rows: Some(vec![vec!["v".to_string()]]),
    }];
    let (stored, summary) = load("/repo/a.xlsx", Source::Sheets, Loaded::Sheets(Ok(sheets)));
    assert_eq!(stored[0].params, vec!["a.xlsx", "# Sheet: S\nv\n\n", "xlsx"]);
    assert_eq!(summary.binary_upserts, 1);

    let (stored, summary) = load("/repo/a.docx", Source::Blocks, paragraph("word"));
    assert_eq!(stored[0].params, vec!["a.docx", "word\n", "docx"]);
    assert_eq!(summary.binary_upserts, 1);
}

#[test]
fn unreadable_content_is_a_read_error() {
    assert_eq!(
        error("/repo/a.rs", Source::Bytes, Loaded::Bytes(Err("denied".to_string()))),
        "/repo/a.rs: denied"
    );
    assert_eq!(
        error("/repo/a.md", Source::Bytes, Loaded::Bytes(Ok(vec![0xff]))),
        "/repo/a.md: not utf-8: invalid utf-8 sequence of 1 bytes from index 0"
    );
    assert_eq!(
        error("/repo/a.txt", Source::Bytes, Loaded::Bytes(Ok(vec![0xff]))),
        "/repo/a.txt: not utf-8: invalid utf-8 sequence of 1 bytes from index 0"
    );
    assert_eq!(
        error("/repo/n.ipynb", Source::Body, Loaded::Body(None)),
        "/repo/n.ipynb: read notebook /repo/n.ipynb"
    );
    assert_eq!(
        error("/repo/n.ipynb", Source::Body, Loaded::Body(Some("x".to_string()))),
        "/repo/n.ipynb: parse notebook /repo/n.ipynb as JSON"
    );
    assert_eq!(
        error("/repo/a.pdf", Source::Pdf, Loaded::Pdf(Err("m".to_string()))),
        "/repo/a.pdf: pdf-extract: m"
    );
    assert_eq!(
        error("/repo/a.docx", Source::Blocks, Loaded::Blocks(Ok(Err("m".to_string())))),
        "/repo/a.docx: docx-rs read: m"
    );
    assert_eq!(
        error("/repo/a.docx", Source::Blocks, Loaded::Blocks(Err("denied".to_string()))),
        "/repo/a.docx: denied"
    );
    assert_eq!(
        error("/repo/a.xlsm", Source::Sheets, Loaded::Sheets(Err("m".to_string()))),
        "/repo/a.xlsm: calamine open: m"
    );
}

#[test]
fn blank_content_is_a_read_error() {
    assert_eq!(
        error("/repo/n.ipynb", Source::Body, Loaded::Body(Some("{}".to_string()))),
        "/repo/n.ipynb: notebook had no code cells"
    );
    assert_eq!(
        error("/repo/a.pdf", Source::Pdf, Loaded::Pdf(Ok(" \n".to_string()))),
        "/repo/a.pdf: PDF produced empty text"
    );
    assert_eq!(
        error("/repo/a.xlsx", Source::Sheets, Loaded::Sheets(Ok(vec![]))),
        "/repo/a.xlsx: XLSX produced empty text"
    );
    assert_eq!(
        error("/repo/a.docx", Source::Blocks, paragraph(" ")),
        "/repo/a.docx: DOCX produced empty text"
    );
}

#[test]
fn large_files_are_skipped() {
    let mut walk = walk();
    let mut summary = Summary::default();
    walk_and_upsert(&mut walk, &mut summary, entry("/repo/a.rs"));
    let action = walk_and_upsert(&mut walk, &mut summary, WalkEvent::Size(Some(5 * 1024 * 1024 + 1)));
    assert!(matches!(action, WalkAction::Next));
    assert_eq!((summary.files_seen, summary.skipped), (1, 1));
    walk_and_upsert(&mut walk, &mut summary, entry("/repo/a.rs"));
    let action = walk_and_upsert(&mut walk, &mut summary, WalkEvent::Size(Some(MAX_FILE_BYTES)));
    assert!(matches!(action, WalkAction::Peek));
    assert_eq!(summary.skipped, 1);
}

#[test]
fn files_without_a_known_size_are_skipped() {
    let mut walk = walk();
    let mut summary = Summary::default();
    walk_and_upsert(&mut walk, &mut summary, entry("/repo/a.rs"));
    let action = walk_and_upsert(&mut walk, &mut summary, WalkEvent::Size(None));
    assert!(matches!(action, WalkAction::Next));
    assert_eq!(summary.skipped, 1);
}

#[test]
fn files_of_no_use_are_skipped() {
    let mut walk = walk();
    let mut summary = Summary::default();
    assert!(matches!(approach(&mut walk, &mut summary, "/repo/a.png"), WalkAction::Next));
    assert_eq!((summary.files_seen, summary.skipped), (1, 1));
}

#[test]
fn binary_documents_are_skipped_unless_wanted_and_decodable() {
    for (wanted, native) in [(false, true), (true, false), (false, false)] {
        let mut walk = Walk::new("/repo", wanted, native, None);
        let mut summary = Summary::default();
        for path in ["/repo/a.pdf", "/repo/a.docx", "/repo/a.xlsx"] {
            assert!(matches!(approach(&mut walk, &mut summary, path), WalkAction::Next));
        }
        assert_eq!((summary.skipped, summary.read_errors), (3, 0));
    }
}

#[test]
fn the_knowledge_base_is_left_alone() {
    let mut walk = walk();
    let mut summary = Summary::default();
    for path in ["/repo/.helios-kb/a.rs", "/repo/x/.helios-index/b.md"] {
        let action = walk_and_upsert(&mut walk, &mut summary, entry(path));
        assert!(matches!(action, WalkAction::Next));
    }
    assert_eq!(summary.files_seen, 0);
}

#[test]
fn directories_are_not_counted() {
    let mut walk = walk();
    let mut summary = Summary::default();
    let event = WalkEvent::Entry {
        path: "/repo/a.rs".to_string(),
        is_file: false,
    };
    assert!(matches!(walk_and_upsert(&mut walk, &mut summary, event), WalkAction::Next));
    assert_eq!(summary.files_seen, 0);
}

#[test]
fn unreadable_entries_are_counted_without_a_sample() {
    let mut walk = walk();
    let mut summary = Summary::default();
    let action = walk_and_upsert(&mut walk, &mut summary, WalkEvent::Unreadable);
    assert!(matches!(action, WalkAction::Next));
    assert_eq!((summary.read_errors, summary.files_seen, walk.unreadable), (1, 0, 1));
    assert!(summary.read_error_samples.is_empty());
}

#[test]
fn marked_code_is_skipped() {
    let mut walk = walk();
    let mut summary = Summary::default();
    walk_and_upsert(&mut walk, &mut summary, entry("/repo/a.go"));
    let action = walk_and_upsert(&mut walk, &mut summary, WalkEvent::Size(Some(99)));
    assert!(matches!(action, WalkAction::Peek));
    let head = b"// Code generated by x. DO NOT EDIT.".to_vec();
    let action = walk_and_upsert(&mut walk, &mut summary, WalkEvent::Head(Some(head)));
    assert!(matches!(action, WalkAction::Next));
    assert_eq!((summary.skipped, summary.code_upserts), (1, 0));
}

#[test]
fn code_whose_head_cannot_be_read_is_loaded() {
    let mut walk = walk();
    let mut summary = Summary::default();
    walk_and_upsert(&mut walk, &mut summary, entry("/repo/a.go"));
    walk_and_upsert(&mut walk, &mut summary, WalkEvent::Size(Some(99)));
    let action = walk_and_upsert(&mut walk, &mut summary, WalkEvent::Head(None));
    assert!(matches!(action, WalkAction::Load(Source::Bytes)));
}

#[test]
fn flagged_code_is_skipped_and_flagged_text_is_not() {
    let set = load_linguist_generated_globset(&vec!["gen/** linguist-generated".to_string()]);
    let mut walk = Walk::new("/repo", true, true, set.clone());
    let mut summary = Summary::default();
    walk_and_upsert(&mut walk, &mut summary, entry("/repo/gen/a.rs"));
    let action = walk_and_upsert(&mut walk, &mut summary, WalkEvent::Size(Some(9)));
    assert!(matches!(action, WalkAction::Next));
    assert_eq!(summary.skipped, 1);
    for path in ["/repo/gen/a.md", "/repo/gen/a.txt", "/repo/gen/a.pdf"] {
        let mut other = Walk::new("/repo", true, true, set.clone());
        let mut counts = Summary::default();
        walk_and_upsert(&mut other, &mut counts, entry(path));
        let action = walk_and_upsert(&mut other, &mut counts, WalkEvent::Size(Some(9)));
        assert!(matches!(action, WalkAction::Load(_)));
    }
    walk_and_upsert(&mut walk, &mut summary, entry("/repo/src/a.rs"));
    let action = walk_and_upsert(&mut walk, &mut summary, WalkEvent::Size(Some(9)));
    assert!(matches!(action, WalkAction::Peek));
}

#[test]
fn events_that_are_not_awaited_change_nothing() {
    let mut walk = walk();
    let mut summary = Summary::default();
    let action = walk_and_upsert(&mut walk, &mut summary, WalkEvent::Size(Some(1)));
    assert!(matches!(action, WalkAction::Next));
    walk_and_upsert(&mut walk, &mut summary, entry("/repo/a.txt"));
    let action = walk_and_upsert(&mut walk, &mut summary, entry("/repo/b.txt"));
    assert!(matches!(action, WalkAction::Stat));
    assert_eq!(summary.files_seen, 1);
    walk_and_upsert(&mut walk, &mut summary, WalkEvent::Size(Some(1)));
    let action = walk_and_upsert(&mut walk, &mut summary, WalkEvent::Loaded(Loaded::Body(None)));
    assert!(matches!(action, WalkAction::Load(Source::Bytes)));
    let action = walk_and_upsert(&mut walk, &mut summary, WalkEvent::Loaded(bytes("b")));
    assert_eq!(statement(action).params, vec!["a.txt", "b", "text"]);
    let action = walk_and_upsert(&mut walk, &mut summary, WalkEvent::Unreadable);
    assert!(matches!(action, WalkAction::Await));
    assert_eq!((summary.doc_upserts, summary.read_errors), (0, 0));
    let action = walk_and_upsert(&mut walk, &mut summary, WalkEvent::Stored(true));
    assert!(matches!(action, WalkAction::Next));
    assert_eq!(summary.doc_upserts, 1);
}

#[test]
fn upserts_count_once_they_succeeded() {
    let mut walk = walk();
    let mut summary = Summary::default();
    approach(&mut walk, &mut summary, "/repo/a.md");
    let action = walk_and_upsert(&mut walk, &mut summary, WalkEvent::Loaded(bytes("m")));
    assert_eq!(statement(action).table, Table::Src);
    assert_eq!((summary.code_upserts, summary.md_doc_upserts), (0, 0));
    let action = walk_and_upsert(&mut walk, &mut summary, WalkEvent::Stored(true));
    assert_eq!(statement(action).table, Table::DocsMd);
    assert_eq!((summary.code_upserts, summary.md_doc_upserts), (1, 0));
    let action = walk_and_upsert(&mut walk, &mut summary, WalkEvent::Stored(true));
    assert!(matches!(action, WalkAction::Next));
    assert_eq!((summary.code_upserts, summary.md_doc_upserts), (1, 1));
}

#[test]
fn a_failed_upsert_stops_the_walk() {
    for successes in [0, 1] {
        let mut walk = walk();
        let mut summary = Summary::default();
        approach(&mut walk, &mut summary, "/repo/a.md");
        walk_and_upsert(&mut walk, &mut summary, WalkEvent::Loaded(bytes("m")));
        for _ in 0..successes {
            walk_and_upsert(&mut walk, &mut summary, WalkEvent::Stored(true));
        }
        let action = walk_and_upsert(&mut walk, &mut summary, WalkEvent::Stored(false));
        assert!(matches!(action, WalkAction::Stop));
        for event in [entry("/repo/b.rs"), WalkEvent::Stored(true), WalkEvent::Unreadable] {
            let action = walk_and_upsert(&mut walk, &mut summary, event);
            assert!(matches!(action, WalkAction::Stop));
        }
        assert_eq!((summary.code_upserts, summary.md_doc_upserts), (successes, 0));
        assert_eq!((summary.files_seen, summary.read_errors), (1, 0));
    }
}

#[test]
fn walks_that_are_told_the_same_repeat() {
    let (first, one) = load("/repo/a.md", Source::Bytes, bytes("m"));
    let (second, two) = load("/repo/a.md", Source::Bytes, bytes("m"));
    assert_eq!(format!("{first:?}"), format!("{second:?}"));
    assert_eq!(format!("{one:?}"), format!("{two:?}"));
}

#[test]
fn every_file_is_accounted_for() {
    let mut walk = walk();
    let mut summary = Summary::default();
    walk_and_upsert(&mut walk, &mut summary, WalkEvent::Unreadable);
    for i in 0..11 {
        approach(&mut walk, &mut summary, &format!("/repo/{i}.txt"));
        let loaded = Loaded::Bytes(Err("denied".to_string()));
        walk_and_upsert(&mut walk, &mut summary, WalkEvent::Loaded(loaded));
    }
    approach(&mut walk, &mut summary, "/repo/a.png");
    approach(&mut walk, &mut summary, "/repo/a.md");
    let action = walk_and_upsert(&mut walk, &mut summary, WalkEvent::Loaded(bytes("m")));
    assert_eq!(store_all(&mut walk, &mut summary, action).len(), 2);
    approach(&mut walk, &mut summary, "/repo/a.pdf");
    let page = Loaded::Pdf(Ok("p".to_string()));
    let action = walk_and_upsert(&mut walk, &mut summary, WalkEvent::Loaded(page));
    assert_eq!(store_all(&mut walk, &mut summary, action).len(), 1);
    assert_eq!(summary.files_seen, 14);
    assert_eq!((summary.read_errors, walk.unreadable), (12, 1));
    assert_eq!((summary.skipped, summary.code_upserts), (1, 1));
    assert_eq!((summary.md_doc_upserts, summary.doc_upserts, summary.binary_upserts), (1, 0, 1));
    assert_eq!(summary.read_error_samples.len(), 10);
}

#[test]
fn build_and_vendor_directories_are_pruned() {
    for name in [
        "target", "node_modules", "dist", "build", "out", ".venv", "venv", "__pycache__", ".next",
        ".nuxt", ".cache", "vendor", "Pods", ".gradle", ".mvn", ".idea", ".vscode",
        ".pytest_cache", ".mypy_cache", ".ruff_cache", ".tox",
    ] {
        assert!(!keep_entry(true, Some(name)));
        assert!(keep_entry(false, Some(name)));
    }
    assert!(keep_entry(true, Some("src")));
    assert!(keep_entry(true, Some("pods")));
    assert!(keep_entry(true, None));
}

#[test]
fn progress_is_due_by_time_or_by_files() {
    let mut walk = walk();
    assert!(!progress_due(&mut walk, 249, 1999));
    assert_eq!(walk.progress_files, 0);
    assert!(progress_due(&mut walk, 250, 0));
    assert_eq!(walk.progress_files, 250);
    assert!(!progress_due(&mut walk, 499, 0));
    assert!(progress_due(&mut walk, 300, 2000));
    assert_eq!(walk.progress_files, 300);
    assert!(!progress_due(&mut walk, 0, 0));
}

#[test]
fn content_and_statements_of_a_class() {
    let (text, tag) = file_content(classify("a.py"), "a.py", bytes("x = 1")).unwrap();
    assert_eq!((text.as_str(), tag), ("x = 1", "python"));
    let stored = file_statements(classify("a.py"), "a.py", &text, tag);
    assert_eq!(stored.len(), 1);
    assert_eq!(stored[0].params, vec!["a.py", "x = 1", "python"]);
    let stored = file_statements(classify("a.docx"), "a.docx", "t", "docx");
    assert!(stored[0].sql.starts_with("INSERT INTO docs "));
}
