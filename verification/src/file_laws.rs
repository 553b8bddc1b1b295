//! What becomes of a file in the course of a walk, from the moment that it is seen
//! until its rows are written.

use crate::classify::{kind_of, Class, FileKind};
use crate::documents::{blocks_text, sheets_text, Block, BlockModel, Sheet, SheetModel};
use crate::generated::{is_linguist_generated, is_marked_generated};
use crate::notebook::{json_of_text, notebook_tag, notebook_text, JsonModel};
use crate::paths::{is_plain, law_relative_of_entry, segments};
use crate::store::{Statement, StatementModel, Table};
use crate::summary::{sampled, IngestSummary};
use crate::text::{is_blank, utf8_message};
use crate::walk::{
    content_of, is_pruned_name, model_of, same_reports, stored, walk_action, walk_next, Loaded,
    LoadedModel, Pending, PendingModel, Source, Tally, Walk, WalkAction, WalkActionModel, WalkEvent,
    WalkEventModel, WalkModel, WalkRules, MAX_FILE_BYTES, PROGRESS_EVERY_FILES, PROGRESS_MILLIS,
};
use crate::walk_laws::{handed_out, walk_after};
use vstd::prelude::*;

verus! {

/// Whether a file is one that a walk over `rules.root` looks at: it lies below the
/// root under the path `rel`, outside any knowledge base, and is no larger than
/// 5 MiB.
pub open spec fn is_looked_at(rules: WalkRules, path: Seq<char>, rel: Seq<char>, size: u64) -> bool {
    &&& rules.root.len() > 0 && rules.root.last() != '/'
    &&& path == rules.root.push('/') + rel
    &&& is_plain(rel)
    &&& !segments(path).contains(".helios-kb"@)
    &&& !segments(path).contains(".helios-index"@)
    &&& size <= 5 * 1024 * 1024
}

/// Whether a file passes the checks for generated code.
pub open spec fn is_hand_written(rules: WalkRules, rel: Seq<char>, head: Seq<u8>) -> bool {
    !is_linguist_generated(rules.linguist, rel) && !is_marked_generated(head)
}

/// Whether statements write one row: into the given table, under the path, with the
/// content and the tag.
pub open spec fn writes_row(
    statement: StatementModel,
    table: Table,
    rel: Seq<char>,
    content: Seq<char>,
    tag: Seq<char>,
) -> bool {
    &&& statement.table == table
    &&& statement.params[0] == rel
    &&& statement.params[1] == content
    &&& if table == Table::DocsMd {
        statement.params.len() == 2
    } else {
        statement.params.len() == 3 && statement.params[2] == tag
    }
}

proof fn lemma_five(rules: WalkRules, m: WalkModel, e: Seq<WalkEventModel>)
    requires
        e.len() == 5,
    ensures
        ({
            let a = walk_next(rules, m, e[0]);
            let b = walk_next(rules, a, e[1]);
            let c = walk_next(rules, b, e[2]);
            let d = walk_next(rules, c, e[3]);
            &&& walk_after(rules, m, e) == walk_next(rules, d, e[4])
            &&& handed_out(rules, m, e) == outs(walk_action(rules, m, e[0])) + outs(
                walk_action(rules, a, e[1]),
            ) + outs(walk_action(rules, b, e[2])) + outs(walk_action(rules, c, e[3])) + outs(
                walk_action(rules, d, e[4]),
            )
        }),
{
    let e1 = e.take(1);
    let e2 = e.take(2);
    let e3 = e.take(3);
    let e4 = e.take(4);
    let none = Seq::<WalkEventModel>::empty();
    assert(e.drop_last() =~= e4);
    assert(e4.drop_last() =~= e3);
    assert(e3.drop_last() =~= e2);
    assert(e2.drop_last() =~= e1);
    assert(e1.drop_last() =~= none);
    assert(walk_after(rules, m, none) == m);
    assert(walk_after(rules, m, e1) == walk_next(rules, m, e[0]));
    lemma_out(rules, m, none, e[0], e1);
    lemma_out(rules, m, e1, e[1], e2);
    lemma_out(rules, m, e2, e[2], e3);
    lemma_out(rules, m, e3, e[3], e4);
    lemma_out(rules, m, e4, e[4], e);
    assert(handed_out(rules, m, none) =~= Seq::<StatementModel>::empty());
    assert(handed_out(rules, m, none) + outs(walk_action(rules, m, e[0])) =~= outs(
        walk_action(rules, m, e[0]),
    ));
}

/// The statement that an action hands out, if any.
pub open spec fn outs(action: WalkActionModel) -> Seq<StatementModel> {
    match action {
        WalkActionModel::Store(statement) => seq![statement],
        _ => Seq::empty(),
    }
}

proof fn lemma_out(
    rules: WalkRules,
    m: WalkModel,
    before: Seq<WalkEventModel>,
    event: WalkEventModel,
    all: Seq<WalkEventModel>,
)
    requires
        all.len() > 0,
        all.drop_last() == before,
        all.last() == event,
    ensures
        walk_after(rules, m, all) == walk_next(rules, walk_after(rules, m, before), event),
        handed_out(rules, m, all) == handed_out(rules, m, before) + outs(
            walk_action(rules, walk_after(rules, m, before), event),
        ),
{
    assert(handed_out(rules, m, all) =~= handed_out(rules, m, before) + outs(
        walk_action(rules, walk_after(rules, m, before), event),
    ));
}

/// A code file that no check leaves out is stored whole: its row among the sources
/// holds, under its path relative to the root, the text that encodes to exactly the
/// bytes that were read, with its language. It counts as one file and as code.
pub proof fn law_code_files_are_stored_whole(
    rules: WalkRules,
    m: WalkModel,
    path: Seq<char>,
    rel: Seq<char>,
    size: u64,
    head: Seq<u8>,
    bytes: Seq<u8>,
    lang: Seq<char>,
)
    requires
        m.pending is Idle,
        is_looked_at(rules, path, rel, size),
        kind_of(path) == FileKind::Code(lang),
        is_hand_written(rules, rel, head),
        vstd::utf8::valid_utf8(bytes),
    ensures
        ({
            let events = seq![
                WalkEventModel::Entry { path, is_file: true },
                WalkEventModel::Size(Some(size)),
                WalkEventModel::Head(Some(head)),
                WalkEventModel::Loaded(LoadedModel::Bytes(Ok(bytes))),
                WalkEventModel::Stored(true),
            ];
            let out = handed_out(rules, m, events);
            let n = walk_after(rules, m, events);
            &&& out.len() == 1
            &&& writes_row(out[0], Table::Src, rel, out[0].params[1], lang)
            &&& vstd::utf8::encode_utf8(out[0].params[1]) == bytes
            &&& n.pending is Idle
            &&& n.tally == (Tally {
                files_seen: m.tally.files_seen + 1,
                code_upserts: m.tally.code_upserts + 1,
                ..m.tally
            })
        }),
{
    let events = seq![
        WalkEventModel::Entry { path, is_file: true },
        WalkEventModel::Size(Some(size)),
        WalkEventModel::Head(Some(head)),
        WalkEventModel::Loaded(LoadedModel::Bytes(Ok(bytes))),
        WalkEventModel::Stored(true),
    ];
    law_relative_of_entry(rules.root, rel);
    vstd::utf8::decode_utf8_encode_utf8(bytes);
    lemma_five(rules, m, events);
    assert(handed_out(rules, m, events) =~= stored(
        FileKind::Code(lang),
        rel,
        vstd::utf8::decode_utf8(bytes),
        lang,
    ));
}

/// A Markdown file is stored whole and twice: as a source and as a Markdown document,
/// in that order, whether or not a check for generated code would apply to code.
pub proof fn law_markdown_files_are_stored_whole(
    rules: WalkRules,
    m: WalkModel,
    path: Seq<char>,
    rel: Seq<char>,
    size: u64,
    bytes: Seq<u8>,
    lang: Seq<char>,
)
    requires
        m.pending is Idle,
        is_looked_at(rules, path, rel, size),
        kind_of(path) == FileKind::CodeAndDoc(lang),
        vstd::utf8::valid_utf8(bytes),
    ensures
        ({
            let events = seq![
                WalkEventModel::Entry { path, is_file: true },
                WalkEventModel::Size(Some(size)),
                WalkEventModel::Loaded(LoadedModel::Bytes(Ok(bytes))),
                WalkEventModel::Stored(true),
                WalkEventModel::Stored(true),
            ];
            let out = handed_out(rules, m, events);
            let n = walk_after(rules, m, events);
            &&& out.len() == 2
            &&& writes_row(out[0], Table::Src, rel, out[0].params[1], lang)
            &&& writes_row(out[1], Table::DocsMd, rel, out[0].params[1], lang)
            &&& vstd::utf8::encode_utf8(out[0].params[1]) == bytes
            &&& n.pending is Idle
            &&& n.tally == (Tally {
                files_seen: m.tally.files_seen + 1,
                code_upserts: m.tally.code_upserts + 1,
                md_doc_upserts: m.tally.md_doc_upserts + 1,
                ..m.tally
            })
        }),
{
    let events = seq![
        WalkEventModel::Entry { path, is_file: true },
        WalkEventModel::Size(Some(size)),
        WalkEventModel::Loaded(LoadedModel::Bytes(Ok(bytes))),
        WalkEventModel::Stored(true),
        WalkEventModel::Stored(true),
    ];
    law_relative_of_entry(rules.root, rel);
    vstd::utf8::decode_utf8_encode_utf8(bytes);
    lemma_five(rules, m, events);
    let statements = stored(
        FileKind::CodeAndDoc(lang),
        rel,
        vstd::utf8::decode_utf8(bytes),
        lang,
    );
    assert(statements.drop_first()[0] == statements[1]);
    assert(statements.drop_first().drop_first().len() == 0);
    assert(handed_out(rules, m, events) =~= statements);
}

/// A text file is stored whole, as a document of the kind `text`.
pub proof fn law_text_files_are_stored_whole(
    rules: WalkRules,
    m: WalkModel,
    path: Seq<char>,
    rel: Seq<char>,
    size: u64,
    bytes: Seq<u8>,
)
    requires
        m.pending is Idle,
        is_looked_at(rules, path, rel, size),
        kind_of(path) == FileKind::Text,
        vstd::utf8::valid_utf8(bytes),
    ensures
        ({
            let events = seq![
                WalkEventModel::Entry { path, is_file: true },
                WalkEventModel::Size(Some(size)),
                WalkEventModel::Loaded(LoadedModel::Bytes(Ok(bytes))),
                WalkEventModel::Stored(true),
            ];
            let out = handed_out(rules, m, events);
            let n = walk_after(rules, m, events);
            &&& out.len() == 1
            &&& writes_row(out[0], Table::Docs, rel, out[0].params[1], "text"@)
            &&& vstd::utf8::encode_utf8(out[0].params[1]) == bytes
            &&& n.pending is Idle
            &&& n.tally == (Tally {
                files_seen: m.tally.files_seen + 1,
                doc_upserts: m.tally.doc_upserts + 1,
                ..m.tally
            })
        }),
{
    let loaded = LoadedModel::Bytes(Ok(bytes));
    law_relative_of_entry(rules.root, rel);
    vstd::utf8::decode_utf8_encode_utf8(bytes);
    lemma_four(rules, m, path, size, loaded);
    let events = four(path, size, loaded);
    assert(handed_out(rules, m, events) =~= stored(
        FileKind::Text,
        rel,
        vstd::utf8::decode_utf8(bytes),
        "text"@,
    ));
}

/// The events of a file that is not subject to the checks for generated code.
pub open spec fn four(path: Seq<char>, size: u64, loaded: LoadedModel) -> Seq<WalkEventModel> {
    seq![
        WalkEventModel::Entry { path, is_file: true },
        WalkEventModel::Size(Some(size)),
        WalkEventModel::Loaded(loaded),
        WalkEventModel::Stored(true),
    ]
}

proof fn lemma_four(rules: WalkRules, m: WalkModel, path: Seq<char>, size: u64, loaded: LoadedModel)
    ensures
        ({
            let e = four(path, size, loaded);
            let a = walk_next(rules, m, e[0]);
            let b = walk_next(rules, a, e[1]);
            let c = walk_next(rules, b, e[2]);
            &&& walk_after(rules, m, e) == walk_next(rules, c, e[3])
            &&& handed_out(rules, m, e) == outs(walk_action(rules, m, e[0])) + outs(
                walk_action(rules, a, e[1]),
            ) + outs(walk_action(rules, b, e[2])) + outs(walk_action(rules, c, e[3]))
        }),
{
    let e = four(path, size, loaded);
    let e1 = e.take(1);
    let e2 = e.take(2);
    let e3 = e.take(3);
    let none = Seq::<WalkEventModel>::empty();
    assert(e.drop_last() =~= e3);
    assert(e3.drop_last() =~= e2);
    assert(e2.drop_last() =~= e1);
    assert(e1.drop_last() =~= none);
    lemma_out(rules, m, none, e[0], e1);
    lemma_out(rules, m, e1, e[1], e2);
    lemma_out(rules, m, e2, e[2], e3);
    lemma_out(rules, m, e3, e[3], e);
    assert(handed_out(rules, m, none) + outs(walk_action(rules, m, e[0])) =~= outs(
        walk_action(rules, m, e[0]),
    ));
}

/// Where binary documents are wanted, the text of a PDF is stored as a document of the
/// kind `pdf`, whole, unless it is blank.
pub proof fn law_pdf_documents_are_stored(
    rules: WalkRules,
    m: WalkModel,
    path: Seq<char>,
    rel: Seq<char>,
    size: u64,
    text: Seq<char>,
)
    requires
        m.pending is Idle,
        rules.binary_docs,
        is_looked_at(rules, path, rel, size),
        kind_of(path) == FileKind::Pdf,
        !is_blank(text),
    ensures
        is_stored_as(
            rules,
            m,
            four(path, size, LoadedModel::Pdf(Ok(text))),
            rel,
            text,
            "pdf"@,
        ),
{
    let loaded = LoadedModel::Pdf(Ok(text));
    law_relative_of_entry(rules.root, rel);
    lemma_four(rules, m, path, size, loaded);
    assert(handed_out(rules, m, four(path, size, loaded)) =~= stored(
        FileKind::Pdf,
        rel,
        text,
        "pdf"@,
    ));
}

/// Where binary documents are wanted, the text of a word-processor document is stored as a document of the
/// kind `docx`, whole, unless it is blank.
pub proof fn law_word_documents_are_stored(
    rules: WalkRules,
    m: WalkModel,
    path: Seq<char>,
    rel: Seq<char>,
    size: u64,
    blocks: Seq<BlockModel>,
)
    requires
        m.pending is Idle,
        rules.binary_docs,
        is_looked_at(rules, path, rel, size),
        kind_of(path) == FileKind::Docx,
        !is_blank(blocks_text(blocks)),
    ensures
        is_stored_as(
            rules,
            m,
            four(path, size, LoadedModel::Blocks(Ok(Ok(blocks)))),
            rel,
            blocks_text(blocks),
            "docx"@,
        ),
{
    let loaded = LoadedModel::Blocks(Ok(Ok(blocks)));
    law_relative_of_entry(rules.root, rel);
    lemma_four(rules, m, path, size, loaded);
    assert(handed_out(rules, m, four(path, size, loaded)) =~= stored(
        FileKind::Docx,
        rel,
        blocks_text(blocks),
        "docx"@,
    ));
}

/// Where binary documents are wanted, the text of a workbook is stored as a document of the
/// kind `xlsx`, whole, unless it is blank.
pub proof fn law_workbooks_are_stored(
    rules: WalkRules,
    m: WalkModel,
    path: Seq<char>,
    rel: Seq<char>,
    size: u64,
    sheets: Seq<SheetModel>,
)
    requires
        m.pending is Idle,
        rules.binary_docs,
        is_looked_at(rules, path, rel, size),
        kind_of(path) == FileKind::Xlsx,
        !is_blank(sheets_text(sheets)),
    ensures
        is_stored_as(
            rules,
            m,
            four(path, size, LoadedModel::Sheets(Ok(sheets))),
            rel,
            sheets_text(sheets),
            "xlsx"@,
        ),
{
    let loaded = LoadedModel::Sheets(Ok(sheets));
    law_relative_of_entry(rules.root, rel);
    lemma_four(rules, m, path, size, loaded);
    assert(handed_out(rules, m, four(path, size, loaded)) =~= stored(
        FileKind::Xlsx,
        rel,
        sheets_text(sheets),
        "xlsx"@,
    ));
}

/// Whether events store one binary document and count it.
pub open spec fn is_stored_as(
    rules: WalkRules,
    m: WalkModel,
    events: Seq<WalkEventModel>,
    rel: Seq<char>,
    text: Seq<char>,
    tag: Seq<char>,
) -> bool {
    let out = handed_out(rules, m, events);
    let n = walk_after(rules, m, events);
    &&& out.len() == 1
    &&& writes_row(out[0], Table::Docs, rel, text, tag)
    &&& n.pending is Idle
    &&& n.tally == (Tally {
        files_seen: m.tally.files_seen + 1,
        binary_upserts: m.tally.binary_upserts + 1,
        ..m.tally
    })
}

/// A notebook that no check leaves out is stored as a source: the code of its cells,
/// with the language of its kernel, unless the code is blank.
pub proof fn law_notebooks_are_stored(
    rules: WalkRules,
    m: WalkModel,
    path: Seq<char>,
    rel: Seq<char>,
    size: u64,
    head: Seq<u8>,
    body: Seq<char>,
    notebook: JsonModel,
)
    requires
        m.pending is Idle,
        is_looked_at(rules, path, rel, size),
        kind_of(path) == FileKind::Notebook,
        is_hand_written(rules, rel, head),
        json_of_text(body) == Some(notebook),
        !is_blank(notebook_text(notebook)),
    ensures
        ({
            let events = seq![
                WalkEventModel::Entry { path, is_file: true },
                WalkEventModel::Size(Some(size)),
                WalkEventModel::Head(Some(head)),
                WalkEventModel::Loaded(LoadedModel::Body(Some(body))),
                WalkEventModel::Stored(true),
            ];
            let out = handed_out(rules, m, events);
            let n = walk_after(rules, m, events);
            &&& out.len() == 1
            &&& writes_row(
                out[0],
                Table::Src,
                rel,
                notebook_text(notebook),
                notebook_tag(notebook),
            )
            &&& n.pending is Idle
            &&& n.tally == (Tally {
                files_seen: m.tally.files_seen + 1,
                code_upserts: m.tally.code_upserts + 1,
                ..m.tally
            })
        }),
{
    let events = seq![
        WalkEventModel::Entry { path, is_file: true },
        WalkEventModel::Size(Some(size)),
        WalkEventModel::Head(Some(head)),
        WalkEventModel::Loaded(LoadedModel::Body(Some(body))),
        WalkEventModel::Stored(true),
    ];
    law_relative_of_entry(rules.root, rel);
    lemma_five(rules, m, events);
    assert(handed_out(rules, m, events) =~= stored(
        FileKind::Notebook,
        rel,
        notebook_text(notebook),
        notebook_tag(notebook),
    ));
}

/// What is stored of a file is all of it, wherever it lies. Of a code, Markdown or text
/// file it is the text that encodes to exactly the bytes that were read; of a
/// notebook, a PDF, a document or a workbook it is its text, unless that is blank.
pub proof fn law_content_is_whole(
    path: Seq<char>,
    lang: Seq<char>,
    bytes: Seq<u8>,
    body: Seq<char>,
    notebook: JsonModel,
    blocks: Seq<BlockModel>,
    sheets: Seq<SheetModel>,
)
    ensures
        vstd::utf8::valid_utf8(bytes) ==> ({
            let read = LoadedModel::Bytes(Ok(bytes));
            &&& is_whole(content_of(FileKind::Code(lang), path, read), bytes, lang)
            &&& is_whole(content_of(FileKind::CodeAndDoc(lang), path, read), bytes, lang)
            &&& is_whole(content_of(FileKind::Text, path, read), bytes, "text"@)
        }),
        json_of_text(body) == Some(notebook) && !is_blank(notebook_text(notebook)) ==> content_of(
            FileKind::Notebook,
            path,
            LoadedModel::Body(Some(body)),
        ) == gives(notebook_text(notebook), notebook_tag(notebook)),
        !is_blank(body) ==> content_of(FileKind::Pdf, path, LoadedModel::Pdf(Ok(body))) == gives(
            body,
            "pdf"@,
        ),
        !is_blank(blocks_text(blocks)) ==> content_of(
            FileKind::Docx,
            path,
            LoadedModel::Blocks(Ok(Ok(blocks))),
        ) == gives(blocks_text(blocks), "docx"@),
        !is_blank(sheets_text(sheets)) ==> content_of(
            FileKind::Xlsx,
            path,
            LoadedModel::Sheets(Ok(sheets)),
        ) == gives(sheets_text(sheets), "xlsx"@),
{
    if vstd::utf8::valid_utf8(bytes) {
        vstd::utf8::decode_utf8_encode_utf8(bytes);
    }
}

/// Whether a content encodes to exactly the given bytes and has the given tag.
pub open spec fn is_whole(
    content: Result<(Seq<char>, Seq<char>), Seq<char>>,
    bytes: Seq<u8>,
    tag: Seq<char>,
) -> bool {
    content matches Ok(found) && vstd::utf8::encode_utf8(found.0) == bytes && found.1 == tag
}

/// A content with its tag.
pub open spec fn gives(content: Seq<char>, tag: Seq<char>) -> Result<
    (Seq<char>, Seq<char>),
    Seq<char>,
> {
    Ok((content, tag))
}

/// Why the content of a file is a read error: it could not be read or decoded, it is
/// not UTF-8, or it is blank.
pub proof fn law_read_errors(
    path: Seq<char>,
    lang: Seq<char>,
    reason: Seq<char>,
    bytes: Seq<u8>,
    text: Seq<char>,
    notebook: JsonModel,
    blocks: Seq<BlockModel>,
    sheets: Seq<SheetModel>,
)
    requires
        is_blank(text),
        !vstd::utf8::valid_utf8(bytes),
    ensures
        ({
            let unread = LoadedModel::Bytes(Err(reason));
            &&& content_of(FileKind::Code(lang), path, unread) == fails(reason)
            &&& content_of(FileKind::CodeAndDoc(lang), path, unread) == fails(reason)
            &&& content_of(FileKind::Text, path, unread) == fails(reason)
        }),
        ({
            let broken = LoadedModel::Bytes(Ok(bytes));
            let why = "not utf-8: "@ + utf8_message(bytes);
            &&& content_of(FileKind::Code(lang), path, broken) == fails(why)
            &&& content_of(FileKind::CodeAndDoc(lang), path, broken) == fails(why)
            &&& content_of(FileKind::Text, path, broken) == fails(why)
        }),
        content_of(FileKind::Notebook, path, LoadedModel::Body(None)) == fails(
            "read notebook "@ + path,
        ),
        json_of_text(text) is None ==> content_of(
            FileKind::Notebook,
            path,
            LoadedModel::Body(Some(text)),
        ) == fails("parse notebook "@ + path + " as JSON"@),
        json_of_text(text) == Some(notebook) && is_blank(notebook_text(notebook)) ==> content_of(
            FileKind::Notebook,
            path,
            LoadedModel::Body(Some(text)),
        ) == fails("notebook had no code cells"@),
        content_of(FileKind::Pdf, path, LoadedModel::Pdf(Err(reason))) == fails(
            "pdf-extract: "@ + reason,
        ),
        content_of(FileKind::Pdf, path, LoadedModel::Pdf(Ok(text))) == fails(
            "PDF produced empty text"@,
        ),
        content_of(FileKind::Docx, path, LoadedModel::Blocks(Err(reason))) == fails(reason),
        content_of(FileKind::Docx, path, LoadedModel::Blocks(Ok(Err(reason)))) == fails(
            "docx-rs read: "@ + reason,
        ),
        is_blank(blocks_text(blocks)) ==> content_of(
            FileKind::Docx,
            path,
            LoadedModel::Blocks(Ok(Ok(blocks))),
        ) == fails("DOCX produced empty text"@),
        content_of(FileKind::Xlsx, path, LoadedModel::Sheets(Err(reason))) == fails(
            "calamine open: "@ + reason,
        ),
        is_blank(sheets_text(sheets)) ==> content_of(
            FileKind::Xlsx,
            path,
            LoadedModel::Sheets(Ok(sheets)),
        ) == fails("XLSX produced empty text"@),
{
}

/// No content, for a reason.
pub open spec fn fails(reason: Seq<char>) -> Result<(Seq<char>, Seq<char>), Seq<char>> {
    Err(reason)
}

/// Whether a file of a kind is loaded in this way: notebooks as text, PDFs, documents
/// and workbooks by their decoders, and the rest as bytes.
pub open spec fn is_asked_for(kind: FileKind, loaded: LoadedModel) -> bool {
    match loaded {
        LoadedModel::Body(_) => kind == FileKind::Notebook,
        LoadedModel::Pdf(_) => kind == FileKind::Pdf,
        LoadedModel::Blocks(_) => kind == FileKind::Docx,
        LoadedModel::Sheets(_) => kind == FileKind::Xlsx,
        LoadedModel::Bytes(_) => kind is Code || kind is CodeAndDoc || kind == FileKind::Text,
    }
}

/// A file with a read error is counted as one and stores nothing; its path and the
/// reason are kept while there are fewer than ten of them.
pub proof fn law_read_errors_are_reported(
    rules: WalkRules,
    m: WalkModel,
    path: Seq<char>,
    rel: Seq<char>,
    kind: FileKind,
    loaded: LoadedModel,
    reason: Seq<char>,
)
    requires
        m.pending == (PendingModel::Content { path, rel, kind }),
        content_of(kind, path, loaded) == fails(reason),
        is_asked_for(kind, loaded),
    ensures
        ({
            let n = walk_next(rules, m, WalkEventModel::Loaded(loaded));
            &&& walk_action(rules, m, WalkEventModel::Loaded(loaded)) == WalkActionModel::Next
            &&& n.pending is Idle
            &&& n.tally == (Tally {
                read_errors: m.tally.read_errors + 1,
                samples: n.tally.samples,
                ..m.tally
            })
            &&& m.tally.samples.len() < 10 ==> n.tally.samples == m.tally.samples.push(
                path + ": "@ + reason,
            )
            &&& m.tally.samples.len() >= 10 ==> n.tally.samples == m.tally.samples
        }),
{
}

/// A read error adds its path and reason to fewer than ten samples, and no more.
pub proof fn law_samples(samples: Seq<Seq<char>>, path: Seq<char>, reason: Seq<char>)
    ensures
        samples.len() < 10 ==> sampled(samples, path, reason) == samples.push(
            path + ": "@ + reason,
        ),
        samples.len() >= 10 ==> sampled(samples, path, reason) == samples,
{
}

/// A file that is skipped is counted as seen and as skipped, and nothing of it is
/// read: one whose size is unknown or over 5 MiB, and one of no known kind.
pub proof fn law_skipped_files(rules: WalkRules, m: WalkModel, path: Seq<char>, size: Option<u64>)
    requires
        m.pending is Idle,
        !segments(path).contains(".helios-kb"@),
        !segments(path).contains(".helios-index"@),
        size is None || size->0 > 5 * 1024 * 1024 || kind_of(path) == FileKind::Skip,
    ensures
        ({
            let seen = walk_next(rules, m, WalkEventModel::Entry { path, is_file: true });
            let done = walk_next(rules, seen, WalkEventModel::Size(size));
            &&& walk_action(rules, m, WalkEventModel::Entry { path, is_file: true })
                == WalkActionModel::Stat
            &&& walk_action(rules, seen, WalkEventModel::Size(size)) == WalkActionModel::Next
            &&& done.pending is Idle
            &&& done.tally == (Tally {
                files_seen: m.tally.files_seen + 1,
                skipped: m.tally.skipped + 1,
                ..m.tally
            })
        }),
{
}

/// A code file or a notebook whose first bytes hold a marker, or that the attributes
/// files flag, is counted as seen and as skipped, and nothing of it is loaded.
pub proof fn law_generated_files_are_skipped(
    rules: WalkRules,
    m: WalkModel,
    path: Seq<char>,
    rel: Seq<char>,
    size: u64,
    head: Seq<u8>,
)
    requires
        m.pending is Idle,
        is_looked_at(rules, path, rel, size),
        kind_of(path) is Code || kind_of(path) == FileKind::Notebook,
        !is_hand_written(rules, rel, head),
    ensures
        ({
            let flagged = is_linguist_generated(rules.linguist, rel);
            let seen = walk_next(rules, m, WalkEventModel::Entry { path, is_file: true });
            let sized = walk_next(rules, seen, WalkEventModel::Size(Some(size)));
            let done = walk_next(rules, sized, WalkEventModel::Head(Some(head)));
            &&& walk_action(rules, seen, WalkEventModel::Size(Some(size))) == if flagged {
                WalkActionModel::Next
            } else {
                WalkActionModel::Peek
            }
            &&& flagged ==> sized == done
            &&& walk_action(rules, sized, WalkEventModel::Head(Some(head))) == WalkActionModel::Next
            &&& done.pending is Idle
            &&& done.tally == (Tally {
                files_seen: m.tally.files_seen + 1,
                skipped: m.tally.skipped + 1,
                ..m.tally
            })
        }),
{
    law_relative_of_entry(rules.root, rel);
}

/// A PDF, word-processor or spreadsheet document is skipped where binary documents are
/// not indexed; every other document, and one of these where they are, is loaded
/// without a look at its first bytes.
pub proof fn law_documents_are_loaded_or_skipped(
    rules: WalkRules,
    m: WalkModel,
    path: Seq<char>,
    rel: Seq<char>,
    size: u64,
)
    requires
        m.pending is Idle,
        is_looked_at(rules, path, rel, size),
        !(kind_of(path) is Code),
        kind_of(path) != FileKind::Notebook,
        kind_of(path) != FileKind::Skip,
    ensures
        ({
            let kind = kind_of(path);
            let binary = kind == FileKind::Pdf || kind == FileKind::Docx || kind == FileKind::Xlsx;
            let seen = walk_next(rules, m, WalkEventModel::Entry { path, is_file: true });
            let sized = walk_next(rules, seen, WalkEventModel::Size(Some(size)));
            &&& seen.tally == (Tally { files_seen: m.tally.files_seen + 1, ..m.tally })
            &&& if binary && !rules.binary_docs {
                &&& sized.pending is Idle
                &&& sized.tally == (Tally { skipped: m.tally.skipped + 1, ..seen.tally })
            } else {
                &&& sized.pending == (PendingModel::Content { path, rel, kind })
                &&& sized.tally == seen.tally
            }
        }),
{
    law_relative_of_entry(rules.root, rel);
}

/// An entry that is no file, or lies inside a knowledge base, changes nothing; one
/// that could not be read is a read error without a sample.
pub proof fn law_other_entries(rules: WalkRules, m: WalkModel, path: Seq<char>)
    requires
        m.pending is Idle,
    ensures
        walk_next(rules, m, WalkEventModel::Entry { path, is_file: false }) == m,
        segments(path).contains(".helios-kb"@) || segments(path).contains(".helios-index"@)
            ==> walk_next(rules, m, WalkEventModel::Entry { path, is_file: true }) == m,
        walk_next(rules, m, WalkEventModel::Unreadable).pending is Idle,
        walk_next(rules, m, WalkEventModel::Unreadable).tally == (Tally {
            read_errors: m.tally.read_errors + 1,
            unreadable: m.tally.unreadable + 1,
            ..m.tally
        }),
{
}

/// Between two files, a walk is changed by entries alone.
pub proof fn law_idle_walk_waits_for_entries(rules: WalkRules, m: WalkModel, event: WalkEventModel)
    requires
        m.pending is Idle,
        !(event is Entry),
        !(event is Unreadable),
    ensures
        walk_next(rules, m, event) == m,
        walk_action(rules, m, event) == WalkActionModel::Next,
{
}

/// A file whose first bytes cannot be read, or hold no marker, is loaded.
pub proof fn law_unmarked_files_are_loaded(
    rules: WalkRules,
    m: WalkModel,
    path: Seq<char>,
    rel: Seq<char>,
    kind: FileKind,
    head: Option<Seq<u8>>,
)
    requires
        m.pending == (PendingModel::Head { path, rel, kind }),
        kind is Code || kind == FileKind::Notebook,
        head is Some ==> !is_marked_generated(head->0),
    ensures
        walk_next(rules, m, WalkEventModel::Head(head)) == (WalkModel {
            pending: PendingModel::Content { path, rel, kind },
            tally: m.tally,
        }),
{
}

/// What a walk has counted is what its summary says, each count in its own place.
pub proof fn law_counts_are_those_of_the_summary<C, D, L>(
    walk: Walk,
    summary: IngestSummary<C, D, L>,
)
    ensures
        ({
            let m = model_of(walk, summary);
            &&& m.pending == walk.pending@
            &&& m.tally.files_seen == summary.files_seen
            &&& m.tally.code_upserts == summary.code_upserts
            &&& m.tally.doc_upserts == summary.doc_upserts
            &&& m.tally.md_doc_upserts == summary.md_doc_upserts
            &&& m.tally.binary_upserts == summary.binary_upserts
            &&& m.tally.skipped == summary.skipped
            &&& m.tally.read_errors == summary.read_errors
            &&& m.tally.unreadable == walk.unreadable
            &&& m.tally.samples.len() == summary.read_error_samples@.len()
            &&& forall|i: int|
                0 <= i < summary.read_error_samples@.len() ==> #[trigger] m.tally.samples[i]
                    == summary.read_error_samples@[i]@
        }),
        walk.rules().root == walk.root@,
        walk.rules().binary_docs == walk.binary_docs,
        walk.rules().linguist == walk.linguist,
{
}

/// Summaries that agree in what a walk does not count agree in every other entry.
pub proof fn law_same_reports<C, D, L>(a: IngestSummary<C, D, L>, b: IngestSummary<C, D, L>)
    requires
        same_reports(a, b),
    ensures
        a == (IngestSummary {
            files_seen: a.files_seen,
            code_upserts: a.code_upserts,
            doc_upserts: a.doc_upserts,
            md_doc_upserts: a.md_doc_upserts,
            binary_upserts: a.binary_upserts,
            skipped: a.skipped,
            read_errors: a.read_errors,
            read_error_samples: a.read_error_samples,
            ..b
        }),
{
}

/// A walk asks for what it waits for: for the size of a file, for the first bytes of
/// code and notebooks, and for the content, as the kind of the file needs it.
pub proof fn law_walk_asks_for_what_it_awaits(rules: WalkRules, m: WalkModel, event: WalkEventModel)
    ensures
        ({
            let action = walk_action(rules, m, event);
            match walk_next(rules, m, event).pending {
                PendingModel::Idle => action == WalkActionModel::Next,
                PendingModel::Size { .. } => action == WalkActionModel::Stat,
                PendingModel::Head { .. } => action == WalkActionModel::Peek,
                PendingModel::Content { kind, .. } => action == WalkActionModel::Load(
                    if kind == FileKind::Notebook {
                        Source::Body
                    } else if kind == FileKind::Pdf {
                        Source::Pdf
                    } else if kind == FileKind::Docx {
                        Source::Blocks
                    } else if kind == FileKind::Xlsx {
                        Source::Sheets
                    } else {
                        Source::Bytes
                    },
                ),
                PendingModel::Upsert { .. } => action is Store || action == WalkActionModel::Await,
                PendingModel::Stopped { .. } => action == WalkActionModel::Stop,
            }
        }),
{
}

/// What is stored of a file: code and notebooks as a source, Markdown as a source and
/// as a Markdown document, and the rest as a document; all under the same path and
/// with the same content.
pub proof fn law_stored_rows(kind: FileKind, rel: Seq<char>, content: Seq<char>, tag: Seq<char>)
    ensures
        ({
            let rows = stored(kind, rel, content, tag);
            match kind {
                FileKind::Code(_) | FileKind::Notebook => rows.len() == 1 && writes_row(
                    rows[0],
                    Table::Src,
                    rel,
                    content,
                    tag,
                ),
                FileKind::CodeAndDoc(_) => rows.len() == 2 && writes_row(
                    rows[0],
                    Table::Src,
                    rel,
                    content,
                    tag,
                ) && writes_row(rows[1], Table::DocsMd, rel, content, tag),
                _ => rows.len() == 1 && writes_row(rows[0], Table::Docs, rel, content, tag),
            }
        }),
{
}

/// The directories that a walk does not enter.
pub proof fn law_pruned_directories(name: Seq<char>)
    ensures
        is_pruned_name(name) <==> (name == "target"@ || name == "node_modules"@ || name == "dist"@
            || name == "build"@ || name == "out"@ || name == ".venv"@ || name == "venv"@ || name
            == "__pycache__"@ || name == ".next"@ || name == ".nuxt"@ || name == ".cache"@ || name
            == "vendor"@ || name == "Pods"@ || name == ".gradle"@ || name == ".mvn"@ || name
            == ".idea"@ || name == ".vscode"@ || name == ".pytest_cache"@ || name
            == ".mypy_cache"@ || name == ".ruff_cache"@ || name == ".tox"@),
{
}

/// The limits of a walk: 5 MiB to a file, and a progress line after two seconds or 250
/// files.
pub proof fn law_limits()
    ensures
        MAX_FILE_BYTES == 5 * 1024 * 1024,
        PROGRESS_MILLIS == 2 * 1000,
        PROGRESS_EVERY_FILES == 250,
{
}

/// What a walk is told and what it answers stand for the same with sequences for
/// strings and vectors.
pub proof fn law_events_and_actions(
    path: String,
    is_file: bool,
    size: Option<u64>,
    bytes: Vec<u8>,
    text: String,
    sheets: Vec<Sheet>,
    blocks: Vec<Block>,
    loaded: Loaded,
    done: bool,
    statement: Statement,
    source: Source,
)
    ensures
        (WalkEvent::Entry { path, is_file })@ == (WalkEventModel::Entry { path: path@, is_file }),
        WalkEvent::Unreadable@ == WalkEventModel::Unreadable,
        WalkEvent::Size(size)@ == WalkEventModel::Size(size),
        WalkEvent::Head(Some(bytes))@ == WalkEventModel::Head(Some(bytes@)),
        WalkEvent::Head(None)@ == WalkEventModel::Head(None),
        WalkEvent::Loaded(loaded)@ == WalkEventModel::Loaded(loaded@),
        WalkEvent::Stored(done)@ == WalkEventModel::Stored(done),
        Loaded::Bytes(Ok(bytes))@ == LoadedModel::Bytes(Ok(bytes@)),
        Loaded::Bytes(Err(text))@ == LoadedModel::Bytes(Err(text@)),
        Loaded::Body(Some(text))@ == LoadedModel::Body(Some(text@)),
        Loaded::Body(None)@ == LoadedModel::Body(None),
        Loaded::Pdf(Ok(text))@ == LoadedModel::Pdf(Ok(text@)),
        Loaded::Pdf(Err(text))@ == LoadedModel::Pdf(Err(text@)),
        Loaded::Sheets(Ok(sheets))@ == LoadedModel::Sheets(
            Ok(sheets@.map_values(|s: Sheet| s@)),
        ),
        Loaded::Sheets(Err(text))@ == LoadedModel::Sheets(Err(text@)),
        Loaded::Blocks(Ok(Ok(blocks)))@ == LoadedModel::Blocks(
            Ok(Ok(blocks@.map_values(|b: Block| b@))),
        ),
        Loaded::Blocks(Ok(Err(text)))@ == LoadedModel::Blocks(Ok(Err(text@))),
        Loaded::Blocks(Err(text))@ == LoadedModel::Blocks(Err(text@)),
        WalkAction::Next@ == WalkActionModel::Next,
        WalkAction::Stat@ == WalkActionModel::Stat,
        WalkAction::Peek@ == WalkActionModel::Peek,
        WalkAction::Load(source)@ == WalkActionModel::Load(source),
        WalkAction::Store(statement)@ == WalkActionModel::Store(statement@),
        WalkAction::Await@ == WalkActionModel::Await,
        WalkAction::Stop@ == WalkActionModel::Stop,
        statement@.table == statement.table,
        statement@.sql == statement.sql@,
        statement@.context == statement.context@,
        statement@.params.len() == statement.params@.len(),
        forall|i: int|
            0 <= i < statement.params@.len() ==> #[trigger] statement@.params[i]
                == statement.params@[i]@,
{
}

/// What a walk waits for, and the class of a file, stand for the same with sequences
/// for strings.
pub proof fn law_pending_and_classes(
    path: String,
    rel: String,
    class: Class<'static>,
    lang: &'static str,
    table: Table,
    left: Vec<Statement>,
)
    ensures
        Pending::Idle@ == PendingModel::Idle,
        (Pending::Size { path })@ == (PendingModel::Size { path: path@ }),
        (Pending::Head { path, rel, class })@ == (PendingModel::Head {
            path: path@,
            rel: rel@,
            kind: class@,
        }),
        (Pending::Content { path, rel, class })@ == (PendingModel::Content {
            path: path@,
            rel: rel@,
            kind: class@,
        }),
        (Pending::Upsert { class, table, left })@ == (PendingModel::Upsert {
            kind: class@,
            table,
            left: left@.map_values(|s: Statement| s@),
        }),
        (Pending::Stopped { table })@ == (PendingModel::Stopped { table }),
        Class::Code(lang)@ == FileKind::Code(lang@),
        Class::CodeAndDoc(lang)@ == FileKind::CodeAndDoc(lang@),
        Class::Text@ == FileKind::Text,
        Class::Notebook@ == FileKind::Notebook,
        Class::Pdf@ == FileKind::Pdf,
        Class::Docx@ == FileKind::Docx,
        Class::Xlsx@ == FileKind::Xlsx,
        Class::Skip@ == FileKind::Skip,
{
}

} // verus!
