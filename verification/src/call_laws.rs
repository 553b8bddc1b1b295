//! What the calls of the library return, for every argument.

use crate::classify::{classify, kind_of, screened, Class, FileKind};
use crate::documents::{
    blocks_text, docx_text, extract_docx, extract_pdf, extract_xlsx, sheets_text, xlsx_text, Block,
    Sheet,
};
use crate::file_laws::{law_content_is_whole, law_pruned_directories, law_stored_rows, writes_row};
use crate::generated::{
    generated_globs, generated_patterns, glob_matches, globs_build, is_generated_file, is_glob,
    linguist_generated, linguist_generated_patterns, load_linguist_generated_globset, set_globs,
};
use crate::generated_laws::{ascii, law_flagged_globs, law_markers, occurs};
use crate::ingest::{
    code_request, docs_request, facts_of, finish, indexer_of, ingest, no_distill, recorded,
    run_flags, run_next, sql_of_step, step_sql, CodeRequest, DocsRequest, Indexer, IngestRun, Outcome, Progress, RunFlags,
    Stage, Step,
};
use crate::notebook::{
    extract_ipynb, json_of_text, member, notebook_code, notebook_tag, notebook_text, Json, JsonModel,
};
use crate::path_laws::{law_extension_follows_the_last_dot, law_kinds};
use crate::paths::{
    extension, has_segment, is_plain, law_relative_of_entry, path_extension, relative,
    relative_path, segments,
};
use crate::plan_laws::law_table_statements;
use crate::settings::{open_kb_for_ingest, KbSettings, WalSyncMode};
use crate::store::{
    count_query, creations, ensure_tables, name_of_table, row_count, table_name, upsert_doc,
    upsert_doc_md, upsert_sql, upsert_src, CountCell, Statement, Table,
};
use crate::summary::{record_read_error, IngestOptions, IngestSummary};
use crate::text::{
    blank, chars_of, is_blank, is_white_space, join, joined, lowered, pieces, read_utf8, same_text,
    split, split_words, texts, to_lower, utf8_message, white_space, words, Cut,
};
use crate::text_laws::law_reading_loses_nothing;
use crate::walk::{
    content_of, file_content, file_statements, fits, is_accounted, keep_entry, model_of,
    progress_due, same_reports, walk_action, walk_and_upsert, walk_next, Loaded, PendingModel, Walk,
    WalkAction, WalkEvent,
};
use globset::GlobSet;
use vstd::prelude::*;

verus! {

/// Reading gives back the text that the bytes encode, all of it, or the reason why
/// there is none.
pub proof fn law_read_utf8(bytes: Vec<u8>, reason: String, r: Result<String, String>)
    ensures
        call_ensures(read_utf8, (Ok(bytes),), r) ==> match r {
            Ok(s) => vstd::utf8::encode_utf8(s@) == bytes@,
            Err(e) => !vstd::utf8::valid_utf8(bytes@) && e@ == "not utf-8: "@ + utf8_message(bytes@),
        },
        call_ensures(read_utf8, (Err(reason),), r) ==> r is Err && r->Err_0@ == reason@,
{
    law_reading_loses_nothing(bytes@, Seq::empty(), reason@);
}

/// Text is compared, taken apart and put together character by character.
pub proof fn law_text_calls(
    a: &str,
    b: &str,
    c: char,
    cut: Cut,
    list: &Vec<String>,
    same: bool,
    chars: Vec<char>,
    white: bool,
    empty: bool,
    low: String,
    parts: Vec<String>,
    found: Vec<String>,
    whole: String,
)
    ensures
        call_ensures(same_text, (a, b), same) ==> same == (a@ == b@),
        call_ensures(chars_of, (a,), chars) ==> chars@ == a@,
        call_ensures(white_space, (c,), white) ==> white == is_white_space(c),
        call_ensures(blank, (a,), empty) ==> empty == is_blank(a@),
        call_ensures(to_lower, (a,), low) ==> low@ == lowered(a@),
        call_ensures(split, (a, cut), parts) ==> texts(parts@) == pieces(a@, cut),
        call_ensures(split_words, (a,), found) ==> texts(found@) == words(a@),
        call_ensures(join, (list, c), whole) ==> whole@ == joined(texts(list@), c),
{
}

/// The extension and the class of a file are those of the last dot in its name,
/// wherever it lies.
pub proof fn law_extension_calls(
    path: &str,
    dir: Seq<char>,
    stem: Seq<char>,
    ext: Seq<char>,
    found: Option<String>,
    class: Class<'static>,
)
    requires
        path@ == dir.push('/') + (stem.push('.') + ext),
        stem.len() > 0,
        ext.len() > 0,
        !stem.contains('/'),
        !ext.contains('/'),
        !ext.contains('.'),
    ensures
        call_ensures(path_extension, (path,), found) ==> found is Some && found->0@ == ext,
        call_ensures(classify, (path,), class) && lowered(ext) == "rs"@ ==> class@ == FileKind::Code(
            "rust"@,
        ),
        call_ensures(classify, (path,), class) && lowered(ext) == "md"@ ==> class@
            == FileKind::CodeAndDoc("markdown"@),
        call_ensures(classify, (path,), class) ==> class@ == kind_of(path@),
{
    law_extension_follows_the_last_dot(dir, stem, ext);
    law_kinds(dir, stem, ext);
}

/// Every path is classified by its extension, where it has one.
pub proof fn law_path_calls(
    path: &str,
    root: &str,
    name: &str,
    found: Option<String>,
    rel: String,
    has: bool,
    class: Class<'static>,
    screen: bool,
)
    ensures
        call_ensures(path_extension, (path,), found) ==> match found {
            Some(e) => extension(path@) == Some(e@),
            None => extension(path@) is None,
        },
        call_ensures(relative_path, (path, root), rel) ==> rel@ == relative(path@, root@),
        call_ensures(has_segment, (path, name), has) ==> has == segments(path@).contains(name@),
        call_ensures(classify, (path,), class) ==> class@ == kind_of(path@),
        call_ensures(screened, (&class,), screen) ==> screen == (class is Code || class is Notebook),
{
}

/// Seen from its root, an entry has the path that it has there.
pub proof fn law_relative_path(path: &str, root: &str, rel: Seq<char>, r: String)
    requires
        root@.len() > 0,
        root@.last() != '/',
        is_plain(rel),
        path@ == root@.push('/') + rel,
        call_ensures(relative_path, (path, root), r),
    ensures
        r@ == rel,
{
    law_relative_of_entry(root@, rel);
}

/// A file is generated where one of the four markers occurs in its first 4096 bytes.
pub proof fn law_is_generated_file(head: &[u8], r: bool)
    requires
        call_ensures(is_generated_file, (head,), r),
    ensures
        ({
            let first = head@.take(
                if head@.len() < 4096 {
                    head@.len() as int
                } else {
                    4096
                },
            );
            r == (occurs(ascii("@generated"@), first) || occurs(ascii("DO NOT EDIT"@), first)
                || occurs(ascii("AUTO-GENERATED"@), first) || occurs(
                ascii("Code generated by"@),
                first,
            ))
        }),
{
    law_markers(head@);
}

/// Every pattern that the attributes files flag and that is a glob takes part in the
/// set, and no other does: a path is flagged where one of them matches it. There is a
/// set unless there is no such pattern or it does not build.
pub proof fn law_load_linguist_generated_globset(
    bodies: &Vec<String>,
    rel: &str,
    pattern: Seq<char>,
    patterns: Vec<String>,
    set: Option<GlobSet>,
    flagged: bool,
)
    requires
        call_ensures(load_linguist_generated_globset, (bodies,), set),
        call_ensures(linguist_generated, (&set, rel), flagged),
        call_ensures(linguist_generated_patterns, (bodies,), patterns),
    ensures
        texts(patterns@) == generated_patterns(texts(bodies@)),
        set is None ==> !flagged,
        set is Some ==> set_globs(set->0).contains(pattern) == (texts(patterns@).contains(pattern)
            && is_glob(pattern)),
        set is Some && texts(patterns@).contains(pattern) && is_glob(pattern) && glob_matches(
            pattern,
            rel@,
        ) ==> flagged,
        flagged ==> set is Some && exists|i: int|
            0 <= i < set_globs(set->0).len() && glob_matches(#[trigger] set_globs(set->0)[i], rel@),
        set is None && texts(patterns@).contains(pattern) && is_glob(pattern) ==> !globs_build(
            generated_globs(texts(bodies@)),
        ),
{
    law_flagged_globs(texts(bodies@), pattern);
    if set is Some && texts(patterns@).contains(pattern) && is_glob(pattern) {
        let i = choose|i: int|
            0 <= i < set_globs(set->0).len() && set_globs(set->0)[i] == pattern;
        assert(set_globs(set->0)[i] == pattern);
    }
}

/// The code of a notebook and its language, or why there is none.
pub proof fn law_notebook_calls(
    notebook: &Json,
    code: (String, &'static str),
    path: &str,
    body: &str,
    r: Result<(String, &'static str), String>,
)
    ensures
        call_ensures(notebook_code, (notebook,), code) ==> code.0@ == notebook_text(notebook@)
            && code.1@ == notebook_tag(notebook@),
        call_ensures(extract_ipynb, (path, None), r) ==> r is Err && r->Err_0@ == "read notebook "@
            + path@,
        call_ensures(extract_ipynb, (path, Some(body)), r) ==> match json_of_text(body@) {
            None => r is Err && r->Err_0@ == "parse notebook "@ + path@ + " as JSON"@,
            Some(found) => r is Ok && r->Ok_0.0@ == notebook_text(found) && r->Ok_0.1@
                == notebook_tag(found),
        },
{
}

/// A member is found by its name, and a value tells whether it is a text or an array.
pub proof fn law_value_calls(
    value: &Json,
    name: &str,
    found: Option<&Json>,
    text: Option<&str>,
    items: Option<&Vec<Json>>,
)
    ensures
        call_ensures(Json::get, (value, name), found) ==> match found {
            Some(v) => member(value@, name@) == Some(v@),
            None => member(value@, name@) is None,
        },
        call_ensures(Json::as_str, (value,), text) ==> match text {
            Some(s) => value@ == JsonModel::Text(s@),
            None => !(value@ is Text),
        },
        call_ensures(Json::as_array, (value,), items) ==> match items {
            Some(v) => value@ == JsonModel::Array(v@.map_values(|i: Json| i@)),
            None => !(value@ is Array),
        },
{
    if call_ensures(Json::as_array, (value,), items) && items is Some {
        assert(value@->Array_0 =~= items->0@.map_values(|i: Json| i@));
    }
}

/// The text of documents, or why there is none.
pub proof fn law_document_calls(
    blocks: Vec<Block>,
    sheets: Vec<Sheet>,
    text: String,
    message: String,
    whole: String,
    r: Result<String, String>,
)
    ensures
        call_ensures(docx_text, (&blocks,), whole) ==> whole@ == blocks_text(
            blocks@.map_values(|b: Block| b@),
        ),
        call_ensures(xlsx_text, (&sheets,), whole) ==> whole@ == sheets_text(
            sheets@.map_values(|s: Sheet| s@),
        ),
        call_ensures(extract_docx, (Some(Ok(blocks)),), r) ==> r is Ok && r->Ok_0@ == blocks_text(
            blocks@.map_values(|b: Block| b@),
        ),
        call_ensures(extract_xlsx, (Some(Ok(sheets)),), r) ==> r is Ok && r->Ok_0@ == sheets_text(
            sheets@.map_values(|s: Sheet| s@),
        ),
        call_ensures(extract_pdf, (Some(Ok(text)),), r) ==> r is Ok && r->Ok_0@ == text@,
        call_ensures(extract_docx, (Some(Err(message)),), r) ==> r is Err && r->Err_0@
            == "docx-rs read: "@ + message@,
        call_ensures(extract_xlsx, (Some(Err(message)),), r) ==> r is Err && r->Err_0@
            == "calamine open: "@ + message@,
        call_ensures(extract_pdf, (Some(Err(message)),), r) ==> r is Err && r->Err_0@
            == "pdf-extract: "@ + message@,
        call_ensures(extract_docx, (None,), r) ==> r is Err && r->Err_0@
            == "DOCX ingestion not enabled — rebuild with `--features native-binary-docs` (or use Docling)"@,
        call_ensures(extract_xlsx, (None,), r) ==> r is Err && r->Err_0@
            == "XLSX ingestion not enabled — rebuild with `--features native-binary-docs` (or use Docling)"@,
        call_ensures(extract_pdf, (None,), r) ==> r is Err && r->Err_0@
            == "PDF ingestion not enabled — rebuild with `--features native-binary-docs` (or use Docling)"@,
{
}

/// What is stored of a code, Markdown or text file encodes to exactly the bytes that
/// were read.
pub proof fn law_file_content(
    class: Class<'static>,
    path: &str,
    bytes: Vec<u8>,
    r: Result<(String, &'static str), String>,
)
    requires
        vstd::utf8::valid_utf8(bytes@),
        class is Code || class is CodeAndDoc || class is Text,
        call_ensures(file_content, (class, path, Loaded::Bytes(Ok(bytes))), r),
    ensures
        r is Ok,
        vstd::utf8::encode_utf8(r->Ok_0.0@) == bytes@,
        class matches Class::Code(lang) ==> r->Ok_0.1@ == lang@,
        class matches Class::CodeAndDoc(lang) ==> r->Ok_0.1@ == lang@,
        class is Text ==> r->Ok_0.1@ == "text"@,
{
    let lang = match class {
        Class::Code(lang) => lang@,
        Class::CodeAndDoc(lang) => lang@,
        _ => Seq::empty(),
    };
    law_content_is_whole(
        path@,
        lang,
        bytes@,
        Seq::empty(),
        JsonModel::Null,
        Seq::empty(),
        Seq::empty(),
    );
}

/// What is stored of any file is its content, or the reason why there is none.
pub proof fn law_every_file_content(
    class: Class<'static>,
    path: &str,
    loaded: Loaded,
    r: Result<(String, &'static str), String>,
)
    requires
        fits(class@, loaded@),
        call_ensures(file_content, (class, path, loaded), r),
    ensures
        match r {
            Ok((text, tag)) => content_of(class@, path@, loaded@) == Ok::<
                (Seq<char>, Seq<char>),
                Seq<char>,
            >((text@, tag@)),
            Err(reason) => content_of(class@, path@, loaded@) == Err::<
                (Seq<char>, Seq<char>),
                Seq<char>,
            >(reason@),
        },
{
}

/// The statements for a file write its rows.
pub proof fn law_file_statements(
    class: Class<'static>,
    rel: &str,
    content: &str,
    tag: &str,
    r: Vec<Statement>,
)
    requires
        call_ensures(file_statements, (class, rel, content, tag), r),
    ensures
        class is Code || class is Notebook ==> r@.len() == 1 && writes_row(
            r@[0]@,
            Table::Src,
            rel@,
            content@,
            tag@,
        ),
        class is CodeAndDoc ==> r@.len() == 2 && writes_row(
            r@[0]@,
            Table::Src,
            rel@,
            content@,
            tag@,
        ) && writes_row(r@[1]@, Table::DocsMd, rel@, content@, tag@),
        class is Text || class is Pdf || class is Docx || class is Xlsx ==> r@.len() == 1
            && writes_row(r@[0]@, Table::Docs, rel@, content@, tag@),
{
    let views = r@.map_values(|s: Statement| s@);
    law_stored_rows(class@, rel@, content@, tag@);
    assert(views.len() == r@.len());
    assert(forall|i: int| 0 <= i < r@.len() ==> views[i] == (#[trigger] r@[i])@);
}

/// Each statement says what it does, with the values that it was made for.
pub proof fn law_statement_calls(
    path: &str,
    content: &str,
    tag: &str,
    table: Table,
    one: Statement,
    all: Vec<Statement>,
    query: String,
    name: &'static str,
)
    ensures
        call_ensures(upsert_src, (path, content, tag), one) ==> writes_row(
            one@,
            Table::Src,
            path@,
            content@,
            tag@,
        ) && one.sql@ == upsert_sql(Table::Src) && one.context@ == "upsert_src "@ + path@,
        call_ensures(upsert_doc, (path, content, tag), one) ==> writes_row(
            one@,
            Table::Docs,
            path@,
            content@,
            tag@,
        ) && one.sql@ == upsert_sql(Table::Docs) && one.context@ == "upsert_doc "@ + path@,
        call_ensures(upsert_doc_md, (path, content), one) ==> writes_row(
            one@,
            Table::DocsMd,
            path@,
            content@,
            tag@,
        ) && one.sql@ == upsert_sql(Table::DocsMd) && one.context@ == "upsert_doc_md "@
            + path@,
        call_ensures(ensure_tables, (), all) ==> all@.map_values(|s: Statement| s@) == creations()
            && all@.len() == 3 && all@[0]@.table == Table::Src && all@[1]@.table == Table::Docs
            && all@[2]@.table == Table::DocsMd,
        call_ensures(count_query, (table,), query) ==> query@ == "SELECT count(*) FROM "@
            + name_of_table(table),
        call_ensures(table_name, (table,), name) ==> name@ == name_of_table(table),
{
    law_table_statements(path@, content@, tag@, table);
    if call_ensures(ensure_tables, (), all) {
        let views = all@.map_values(|s: Statement| s@);
        assert(views.len() == 3);
        assert(views[0] == all@[0]@ && views[1] == all@[1]@ && views[2] == all@[2]@);
    }
}

/// A count is the number in its cell; a negative one wraps around, and a cell of
/// another type counts as zero.
pub proof fn law_row_count(small: i32, large: i64, r: u64)
    ensures
        call_ensures(row_count, (CountCell::Int4(small),), r) ==> r == if small >= 0 {
            small as int
        } else {
            small + 0x1_0000_0000_0000_0000
        },
        call_ensures(row_count, (CountCell::Int8(large),), r) ==> r == if large >= 0 {
            large as int
        } else {
            large + 0x1_0000_0000_0000_0000
        },
        call_ensures(row_count, (CountCell::Other,), r) ==> r == 0,
{
}

/// The directories that a walk does not enter; every file, and every other directory,
/// it looks at.
pub proof fn law_keep_entry(name: &str, is_dir: bool, r: bool)
    ensures
        call_ensures(keep_entry, (is_dir, None), r) ==> r,
        call_ensures(keep_entry, (false, Some(name)), r) ==> r,
        call_ensures(keep_entry, (true, Some(name)), r) ==> r == !(name@ == "target"@ || name@
            == "node_modules"@ || name@ == "dist"@ || name@ == "build"@ || name@ == "out"@ || name@
            == ".venv"@ || name@ == "venv"@ || name@ == "__pycache__"@ || name@ == ".next"@ || name@
            == ".nuxt"@ || name@ == ".cache"@ || name@ == "vendor"@ || name@ == "Pods"@ || name@
            == ".gradle"@ || name@ == ".mvn"@ || name@ == ".idea"@ || name@ == ".vscode"@ || name@
            == ".pytest_cache"@ || name@ == ".mypy_cache"@ || name@ == ".ruff_cache"@ || name@
            == ".tox"@),
{
    law_pruned_directories(name@);
}

/// A knowledge base is opened in its directory and on disk, and its log is synced on
/// every write where durable writes are asked for, and not otherwise.
pub proof fn law_open_kb_for_ingest(dir: &str, durable: bool, r: KbSettings)
    requires
        call_ensures(open_kb_for_ingest, (dir, durable), r),
    ensures
        r.path@ == dir@,
        !r.memory_only,
        durable <==> r.wal_sync_mode == WalSyncMode::Sync,
        !durable <==> r.wal_sync_mode == WalSyncMode::Async,
{
}

/// A walk begins with nothing counted; it indexes binary documents where that is asked
/// for and they can be decoded.
pub proof fn law_new_walk(root: &str, asked: bool, native: bool, linguist: Option<GlobSet>, r: Walk)
    requires
        call_ensures(Walk::new, (root, asked, native, linguist), r),
    ensures
        r.root@ == root@,
        r.binary_docs == (asked && native),
        r.linguist == linguist,
        r.unreadable == 0,
        r.progress_files == 0,
        r.pending@ == PendingModel::Idle,
{
    assert(r.rules().root == r.root@);
}

/// What a run is asked for decides over its flags and over its requests to the engine.
pub proof fn law_requests(
    options: &IngestOptions,
    table: Table,
    flags: RunFlags,
    code: CodeRequest,
    docs: DocsRequest,
    indexer: Indexer,
)
    ensures
        call_ensures(run_flags, (options,), flags) ==> flags.skip_linker == options.skip_linker
            && flags.skip_code_graph == options.skip_code_graph && flags.llm_distill == (
        options.llm_distill is Some),
        call_ensures(code_request, (options,), code) ==> code.source_table@ == "src"@
            && code.embed_bodies == options.with_embeddings && code.force_reparse
            == options.force_reparse && code.embed_endpoint is None && code.embed_bearer is None
            && code.parallelism is None && code.chunk_size is None,
        call_ensures(indexer_of, (options,), indexer) ==> (indexer == Indexer::InProcessEmbedder)
            == options.with_embeddings,
        call_ensures(docs_request, (table,), docs) ==> docs.source_table@
            == name_of_table(table) && docs.id_col@ == "path"@ && docs.text_col@
            == "content"@ && docs.by_headings == (table == Table::DocsMd),
{
}

/// A step that is no more than a statement has that statement.
pub proof fn law_step_sql(step: Step, r: Option<&'static str>)
    requires
        call_ensures(step_sql, (step,), r),
    ensures
        match r {
            Some(sql) => sql_of_step(step) == Some(sql@),
            None => sql_of_step(step) is None,
        },
{
}

/// A run begins with an empty summary, and reports it with the time that it took.
pub proof fn law_run_calls<C, D, L>(
    flags: RunFlags,
    quality_child: bool,
    run: IngestRun<C, D, L>,
    elapsed_ms: u128,
    summary: IngestSummary<C, D, L>,
)
    ensures
        call_ensures(IngestRun::<C, D, L>::new, (flags, quality_child), run) ==> run.flags == flags
            && run.quality_child == quality_child && run.stage == Stage::Opening && run.step
            == Step::EnsureTables && run.todo@ == seq![Step::ReadCheckpoint]
            && run.summary.code_upserts == 0 && run.summary.doc_upserts == 0
            && run.summary.md_doc_upserts == 0 && run.summary.binary_upserts == 0
            && run.summary.files_seen == 0 && run.summary.skipped == 0 && run.summary.read_errors == 0
            && run.summary.read_error_samples@.len() == 0 && run.summary.code is None
            && run.summary.docs is None && run.summary.docs_md is None && run.summary.links is None
            && run.summary.distill is None && run.summary.llm_distill is None,
        call_ensures(finish::<C, D, L>, (run, elapsed_ms), summary) ==> summary == (IngestSummary {
            elapsed_ms,
            ..run.summary
        }),
{
    if call_ensures(IngestRun::<C, D, L>::new, (flags, quality_child), run) {
        assert(run.state().stage == run.stage && run.state().step == run.step);
        assert(run.state().todo == run.todo@);
    }
}

/// A progress line is due two seconds after the last one, or 250 files after it, and
/// only a line that is due starts the count anew.
pub proof fn law_progress_due(files_seen: u64, millis: u64, r: bool)
    ensures
        forall|walk: &mut Walk| #[trigger]
            call_ensures(progress_due, (walk, files_seen, millis), r) ==> {
                &&& r == (millis >= 2000 || files_seen >= walk.progress_files + 250)
                &&& final(walk).progress_files == if r {
                    files_seen
                } else {
                    walk.progress_files
                }
                &&& final(walk).pending == walk.pending
                &&& final(walk).rules() == walk.rules()
                &&& final(walk).unreadable == walk.unreadable
            },
{
}

/// A file that could not be read is counted, and among the first ten its path and the
/// reason are kept behind those before it; nothing else of the summary changes.
pub proof fn law_record_read_error<C, D, L>(path: &str, reason: &str)
    ensures
        forall|s: &mut IngestSummary<C, D, L>| #[trigger]
            call_ensures(record_read_error::<C, D, L>, (s, path, reason), ()) ==> {
                let before = texts(s.read_error_samples@);
                let after = texts(final(s).read_error_samples@);
                &&& s.read_errors < u64::MAX ==> final(s).read_errors == s.read_errors + 1
                &&& before.len() < 10 ==> after == before.push(path@ + ": "@ + reason@)
                &&& before.len() >= 10 ==> after == before
                &&& final(s).files_seen == s.files_seen
                &&& final(s).skipped == s.skipped
                &&& final(s).code_upserts == s.code_upserts
                &&& final(s).doc_upserts == s.doc_upserts
                &&& final(s).md_doc_upserts == s.md_doc_upserts
                &&& final(s).binary_upserts == s.binary_upserts
                &&& same_reports(*final(s), *s)
            },
{
}

/// Each event takes a walk and its summary where the walk goes, and the walk asks for
/// what comes next; what it goes by and what is not its to count stay as they are.
pub proof fn law_walk_and_upsert<C, D, L>(event: WalkEvent, r: WalkAction)
    ensures
        forall|walk: &mut Walk, s: &mut IngestSummary<C, D, L>| #[trigger]
            call_ensures(walk_and_upsert::<C, D, L>, (walk, s, event), r) ==> {
                &&& model_of(*final(walk), *final(s)) == walk_next(
                    walk.rules(),
                    model_of(*walk, *s),
                    event@,
                )
                &&& r@ == walk_action(walk.rules(), model_of(*walk, *s), event@)
                &&& final(walk).rules() == walk.rules()
                &&& final(walk).progress_files == walk.progress_files
                &&& is_accounted(model_of(*final(walk), *final(s)))
                &&& final(s).elapsed_ms == s.elapsed_ms
                &&& final(s).code == s.code
                &&& final(s).docs == s.docs
                &&& final(s).docs_md == s.docs_md
                &&& final(s).links == s.links
                &&& final(s).distill == s.distill
                &&& final(s).llm_distill == s.llm_distill
            },
{
}

/// Each outcome of a step is entered in the summary and takes a run on, by what the
/// summary then says; a run that has ended keeps its summary.
pub proof fn law_ingest<C, D, L>(outcome: Outcome<C, D, L>, r: Progress)
    ensures
        forall|run: &mut IngestRun<C, D, L>| #[trigger]
            call_ensures(ingest::<C, D, L>, (run, outcome), r) ==> {
                let ended = run.stage == Stage::Finished || run.stage == Stage::Aborted;
                let facts = facts_of(run.flags, run.quality_child, final(run).summary);
                &&& final(run).flags == run.flags
                &&& final(run).quality_child == run.quality_child
                &&& ended ==> final(run).summary == run.summary && final(run).symbol_cards
                    == run.symbol_cards
                &&& !ended ==> final(run).summary == recorded(
                    run.summary,
                    run.symbol_cards,
                    run.step,
                    outcome,
                )
                &&& !ended && run.step == Step::BuildSymbolCards ==> match outcome {
                    Outcome::Cards(stats) => final(run).symbol_cards == stats,
                    _ => final(run).symbol_cards == no_distill(),
                }
                &&& run.step != Step::BuildSymbolCards ==> final(run).symbol_cards
                    == run.symbol_cards
                &&& (final(run).state(), r) == run_next(
                    facts,
                    run.state(),
                    outcome is Failed,
                    match outcome {
                        Outcome::Checkpoint(phase) => phase,
                        _ => None,
                    },
                )
            },
{
}

/// Duplicated options ask for the same.
pub proof fn law_duplicated_options(options: &IngestOptions, r: IngestOptions)
    requires
        call_ensures(IngestOptions::clone, (options,), r),
    ensures
        r.source_root == options.source_root,
        r.kb_dir == options.kb_dir,
        r.include_binary_docs == options.include_binary_docs,
        r.force_reparse == options.force_reparse,
        r.durable_writes == options.durable_writes,
        r.with_embeddings == options.with_embeddings,
        r.background_quality == options.background_quality,
        r.skip_linker == options.skip_linker,
        r.skip_cross_file_resolve == options.skip_cross_file_resolve,
        r.skip_code_refs == options.skip_code_refs,
        r.skip_code_graph == options.skip_code_graph,
        r.llm_distill is Some == options.llm_distill is Some,
        r.llm_distill is Some ==> r.llm_distill->0.endpoint@ == options.llm_distill->0.endpoint@
            && r.llm_distill->0.model@ == options.llm_distill->0.model@
            && r.llm_distill->0.concurrency == options.llm_distill->0.concurrency,
{
}

} // verus!
