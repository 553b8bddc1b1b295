//! The walk over a source tree: which entries count, which files are skipped, and
//! what is stored of the others.

use crate::classify::{classify, is_screened, kind_of, screened, Class, FileKind};
use crate::documents::{
    blocks_text, extract_docx, extract_pdf, extract_xlsx, sheets_text, Block, BlockModel, Sheet,
    SheetModel,
};
use crate::generated::{
    is_generated_file, is_linguist_generated, is_marked_generated, linguist_generated,
};
use crate::notebook::{extract_ipynb, json_of_text, notebook_tag, notebook_text};
use crate::paths::{has_segment, relative, relative_path, segments};
use crate::store::{
    doc_md_upsert, doc_upsert, src_upsert, upsert_doc, upsert_doc_md, upsert_src, Statement,
    StatementModel, Table,
};
use crate::summary::{record_read_error, sampled, IngestSummary, MAX_ERROR_SAMPLES};
use crate::text::{
    blank, is_blank, read_utf8, read_view, same_text, text_view, texts, utf8_text,
};
use globset::GlobSet;
use vstd::prelude::*;

verus! {

/// Files of more than 5 MiB are skipped.
pub const MAX_FILE_BYTES: u64 = 5242880;

/// A progress line is due when this many milliseconds have passed since the last.
pub const PROGRESS_MILLIS: u64 = 2000;

/// A progress line is due when this many files were seen since the last.
pub const PROGRESS_EVERY_FILES: u64 = 250;

/// The names of directories that hold build output, vendored code, virtual
/// environments and tool caches.
pub open spec fn is_pruned_name(name: Seq<char>) -> bool {
    ||| name == "target"@
    ||| name == "node_modules"@
    ||| name == "dist"@
    ||| name == "build"@
    ||| name == "out"@
    ||| name == ".venv"@
    ||| name == "venv"@
    ||| name == "__pycache__"@
    ||| name == ".next"@
    ||| name == ".nuxt"@
    ||| name == ".cache"@
    ||| name == "vendor"@
    ||| name == "Pods"@
    ||| name == ".gradle"@
    ||| name == ".mvn"@
    ||| name == ".idea"@
    ||| name == ".vscode"@
    ||| name == ".pytest_cache"@
    ||| name == ".mypy_cache"@
    ||| name == ".ruff_cache"@
    ||| name == ".tox"@
}

/// Whether the walk goes on with an entry. Only directories are pruned; `name` is
/// missing where it is no text.
pub fn keep_entry(is_dir: bool, name: Option<&str>) -> (r: bool)
    ensures
        r == !(is_dir && name is Some && is_pruned_name(name->0@)),
{
    if !is_dir {
        return true;
    }
    match name {
        None => true,
        Some(n) => !(same_text(n, "target") || same_text(n, "node_modules") || same_text(n, "dist")
            || same_text(n, "build") || same_text(n, "out") || same_text(n, ".venv") || same_text(
            n,
            "venv",
        ) || same_text(n, "__pycache__") || same_text(n, ".next") || same_text(n, ".nuxt")
            || same_text(n, ".cache") || same_text(n, "vendor") || same_text(n, "Pods")
            || same_text(n, ".gradle") || same_text(n, ".mvn") || same_text(n, ".idea")
            || same_text(n, ".vscode") || same_text(n, ".pytest_cache") || same_text(
            n,
            ".mypy_cache",
        ) || same_text(n, ".ruff_cache") || same_text(n, ".tox")),
    }
}

/// Whether a path lies inside a knowledge base.
pub open spec fn is_in_kb(path: Seq<char>) -> bool {
    segments(path).contains(".helios-kb"@) || segments(path).contains(".helios-index"@)
}

/// What was found where the content of a file was to be loaded.
#[derive(Debug)]
pub enum Loaded {
    /// The bytes of a text file, or the reason why they could not be read.
    Bytes(Result<Vec<u8>, String>),
    /// The text of a notebook file, if it could be read.
    Body(Option<String>),
    /// What the PDF decoder made of the file: its text or its error's message.
    Pdf(Result<String, String>),
    /// What the workbook decoder made of the file: its sheets or its error's
    /// message.
    Sheets(Result<Vec<Sheet>, String>),
    /// What the document decoder made of the bytes of the file, the elements of its
    /// body or its error's message, or the reason why they could not be read.
    Blocks(Result<Result<Vec<Block>, String>, String>),
}

/// A `Loaded` over sequences.
pub enum LoadedModel {
    Bytes(Result<Seq<u8>, Seq<char>>),
    Body(Option<Seq<char>>),
    Pdf(Result<Seq<char>, Seq<char>>),
    Sheets(Result<Seq<SheetModel>, Seq<char>>),
    Blocks(Result<Result<Seq<BlockModel>, Seq<char>>, Seq<char>>),
}

impl View for Loaded {
    type V = LoadedModel;

    open spec fn view(&self) -> LoadedModel {
        match self {
            Loaded::Bytes(read) => LoadedModel::Bytes(read_view(*read)),
            Loaded::Body(body) => LoadedModel::Body(
                match body {
                    Some(s) => Some(s@),
                    None => None,
                },
            ),
            Loaded::Pdf(decoded) => LoadedModel::Pdf(text_view(*decoded)),
            Loaded::Sheets(decoded) => LoadedModel::Sheets(
                match decoded {
                    Ok(sheets) => Ok(sheets@.map_values(|s: Sheet| s@)),
                    Err(message) => Err(message@),
                },
            ),
            Loaded::Blocks(read) => LoadedModel::Blocks(
                match read {
                    Ok(Ok(blocks)) => Ok(Ok(blocks@.map_values(|b: Block| b@))),
                    Ok(Err(message)) => Ok(Err(message@)),
                    Err(reason) => Err(reason@),
                },
            ),
        }
    }
}

/// Text that is worth storing, or `reason` where it is blank.
pub open spec fn unless_blank(text: Seq<char>, tag: Seq<char>, reason: Seq<char>) -> Result<
    (Seq<char>, Seq<char>),
    Seq<char>,
> {
    if is_blank(text) {
        Err(reason)
    } else {
        Ok((text, tag))
    }
}

/// Whether what was loaded is what a kind of file needs.
pub open spec fn fits(kind: FileKind, loaded: LoadedModel) -> bool {
    match kind {
        FileKind::Notebook => loaded is Body,
        FileKind::Pdf => loaded is Pdf,
        FileKind::Docx => loaded is Blocks,
        FileKind::Xlsx => loaded is Sheets,
        FileKind::Skip => false,
        _ => loaded is Bytes,
    }
}

/// What is stored of a file: its content and the tag that goes with it, or the
/// reason why it counts as a read error. The tag is the language of code and the
/// kind of a document.
pub open spec fn content_of(kind: FileKind, path: Seq<char>, loaded: LoadedModel) -> Result<
    (Seq<char>, Seq<char>),
    Seq<char>,
> {
    match (kind, loaded) {
        (FileKind::Code(lang), LoadedModel::Bytes(read)) => match utf8_text(read) {
            Ok(text) => Ok((text, lang)),
            Err(reason) => Err(reason),
        },
        (FileKind::CodeAndDoc(lang), LoadedModel::Bytes(read)) => match utf8_text(read) {
            Ok(text) => Ok((text, lang)),
            Err(reason) => Err(reason),
        },
        (FileKind::Text, LoadedModel::Bytes(read)) => match utf8_text(read) {
            Ok(text) => Ok((text, "text"@)),
            Err(reason) => Err(reason),
        },
        (FileKind::Notebook, LoadedModel::Body(None)) => Err("read notebook "@ + path),
        (FileKind::Notebook, LoadedModel::Body(Some(body))) => match json_of_text(body) {
            None => Err("parse notebook "@ + path + " as JSON"@),
            Some(notebook) => unless_blank(
                notebook_text(notebook),
                notebook_tag(notebook),
                "notebook had no code cells"@,
            ),
        },
        (FileKind::Pdf, LoadedModel::Pdf(Ok(text))) => unless_blank(
            text,
            "pdf"@,
            "PDF produced empty text"@,
        ),
        (FileKind::Pdf, LoadedModel::Pdf(Err(message))) => Err("pdf-extract: "@ + message),
        (FileKind::Docx, LoadedModel::Blocks(Err(reason))) => Err(reason),
        (FileKind::Docx, LoadedModel::Blocks(Ok(Err(message)))) => Err("docx-rs read: "@ + message),
        (FileKind::Docx, LoadedModel::Blocks(Ok(Ok(blocks)))) => unless_blank(
            blocks_text(blocks),
            "docx"@,
            "DOCX produced empty text"@,
        ),
        (FileKind::Xlsx, LoadedModel::Sheets(Ok(sheets))) => unless_blank(
            sheets_text(sheets),
            "xlsx"@,
            "XLSX produced empty text"@,
        ),
        (FileKind::Xlsx, LoadedModel::Sheets(Err(message))) => Err("calamine open: "@ + message),
        _ => Err(Seq::empty()),
    }
}

/// A content with its tag, or a reason, over sequences.
pub open spec fn content_view(r: Result<(String, &'static str), String>) -> Result<
    (Seq<char>, Seq<char>),
    Seq<char>,
> {
    match r {
        Ok((text, tag)) => Ok((text@, tag@)),
        Err(reason) => Err(reason@),
    }
}

fn refuse_blank(
    text: Result<String, String>,
    tag: &'static str,
    reason: &str,
) -> (r: Result<(String, &'static str), String>)
    ensures
        content_view(r) == match text_view(text) {
            Ok(s) => unless_blank(s, tag@, reason@),
            Err(e) => Err(e),
        },
{
    match text {
        Ok(s) => if blank(s.as_str()) {
            Err(reason.to_owned())
        } else {
            Ok((s, tag))
        },
        Err(e) => Err(e),
    }
}

fn tagged(text: Result<String, String>, tag: &'static str) -> (r: Result<
    (String, &'static str),
    String,
>)
    ensures
        content_view(r) == match text_view(text) {
            Ok(s) => Ok((s, tag@)),
            Err(e) => Err(e),
        },
{
    match text {
        Ok(s) => Ok((s, tag)),
        Err(e) => Err(e),
    }
}

/// What is stored of a file of a class, given what was loaded of it.
pub fn file_content(class: Class<'static>, path: &str, loaded: Loaded) -> (r: Result<
    (String, &'static str),
    String,
>)
    requires
        fits(class@, loaded@),
    ensures
        content_view(r) == content_of(class@, path@, loaded@),
{
    match (class, loaded) {
        (Class::Code(lang), Loaded::Bytes(read)) => tagged(read_utf8(read), lang),
        (Class::CodeAndDoc(lang), Loaded::Bytes(read)) => tagged(read_utf8(read), lang),
        (Class::Text, Loaded::Bytes(read)) => tagged(read_utf8(read), "text"),
        (Class::Notebook, Loaded::Body(body)) => {
            let found = match &body {
                Some(text) => extract_ipynb(path, Some(text.as_str())),
                None => extract_ipynb(path, None),
            };
            match found {
                Ok((text, tag)) => refuse_blank(Ok(text), tag, "notebook had no code cells"),
                Err(reason) => Err(reason),
            }
        },
        (Class::Pdf, Loaded::Pdf(decoded)) => refuse_blank(
            extract_pdf(Some(decoded)),
            "pdf",
            "PDF produced empty text",
        ),
        (Class::Docx, Loaded::Blocks(read)) => match read {
            Ok(decoded) => refuse_blank(
                extract_docx(Some(decoded)),
                "docx",
                "DOCX produced empty text",
            ),
            Err(reason) => Err(reason),
        },
        (Class::Xlsx, Loaded::Sheets(decoded)) => refuse_blank(
            extract_xlsx(Some(decoded)),
            "xlsx",
            "XLSX produced empty text",
        ),
        _ => Err(String::new()),
    }
}

/// The statements that store a content of a kind: code as a source, Markdown as a
/// source and as a Markdown document, and the rest as a document.
pub open spec fn stored(
    kind: FileKind,
    rel: Seq<char>,
    content: Seq<char>,
    tag: Seq<char>,
) -> Seq<StatementModel> {
    match kind {
        FileKind::Code(_) | FileKind::Notebook => seq![src_upsert(rel, content, tag)],
        FileKind::CodeAndDoc(_) => seq![
            src_upsert(rel, content, tag),
            doc_md_upsert(rel, content),
        ],
        _ => seq![doc_upsert(rel, content, tag)],
    }
}

/// The statements that store a content of a class.
pub fn file_statements(class: Class<'static>, rel: &str, content: &str, tag: &str) -> (r: Vec<
    Statement,
>)
    ensures
        r@.map_values(|s: Statement| s@) == stored(class@, rel@, content@, tag@),
{
    match class {
        Class::Code(_) | Class::Notebook => {
            let r: Vec<Statement> = vec![upsert_src(rel, content, tag)];
            assert(r@.map_values(|s: Statement| s@) =~= stored(class@, rel@, content@, tag@));
            r
        },
        Class::CodeAndDoc(_) => {
            let r: Vec<Statement> = vec![
                upsert_src(rel, content, tag),
                upsert_doc_md(rel, content),
            ];
            assert(r@.map_values(|s: Statement| s@) =~= stored(class@, rel@, content@, tag@));
            r
        },
        _ => {
            let r: Vec<Statement> = vec![upsert_doc(rel, content, tag)];
            assert(r@.map_values(|s: Statement| s@) =~= stored(class@, rel@, content@, tag@));
            r
        },
    }
}

/// What the walk waits for.
#[derive(Debug)]
pub enum Pending {
    /// The next entry.
    Idle,
    /// The size of a file.
    Size { path: String },
    /// The first bytes of a file to which the generated-file checks apply.
    Head { path: String, rel: String, class: Class<'static> },
    /// The content of a file.
    Content { path: String, rel: String, class: Class<'static> },
    /// How the upsert into a table of the file at hand ended. `left` are the
    /// statements after it.
    Upsert { class: Class<'static>, table: Table, left: Vec<Statement> },
    /// Nothing: the upsert into a table has failed.
    Stopped { table: Table },
}

/// A `Pending` over sequences.
pub enum PendingModel {
    Idle,
    Size { path: Seq<char> },
    Head { path: Seq<char>, rel: Seq<char>, kind: FileKind },
    Content { path: Seq<char>, rel: Seq<char>, kind: FileKind },
    Upsert { kind: FileKind, table: Table, left: Seq<StatementModel> },
    Stopped { table: Table },
}

impl View for Pending {
    type V = PendingModel;

    open spec fn view(&self) -> PendingModel {
        match self {
            Pending::Idle => PendingModel::Idle,
            Pending::Size { path } => PendingModel::Size { path: path@ },
            Pending::Head { path, rel, class } => PendingModel::Head {
                path: path@,
                rel: rel@,
                kind: class@,
            },
            Pending::Content { path, rel, class } => PendingModel::Content {
                path: path@,
                rel: rel@,
                kind: class@,
            },
            Pending::Upsert { class, table, left } => PendingModel::Upsert {
                kind: class@,
                table: *table,
                left: left@.map_values(|s: Statement| s@),
            },
            Pending::Stopped { table } => PendingModel::Stopped { table: *table },
        }
    }
}

/// What the walk is told.
#[derive(Debug)]
pub enum WalkEvent {
    /// An entry could not be read.
    Unreadable,
    /// An entry, by its path.
    Entry { path: String, is_file: bool },
    /// The size of the file at hand, if it is known.
    Size(Option<u64>),
    /// The first bytes of the file at hand, if they could be read.
    Head(Option<Vec<u8>>),
    /// The content of the file at hand.
    Loaded(Loaded),
    /// Whether the statement that was to be executed succeeded.
    Stored(bool),
}

/// A `WalkEvent` over sequences.
pub enum WalkEventModel {
    Unreadable,
    Entry { path: Seq<char>, is_file: bool },
    Size(Option<u64>),
    Head(Option<Seq<u8>>),
    Loaded(LoadedModel),
    Stored(bool),
}

impl View for WalkEvent {
    type V = WalkEventModel;

    open spec fn view(&self) -> WalkEventModel {
        match self {
            WalkEvent::Unreadable => WalkEventModel::Unreadable,
            WalkEvent::Entry { path, is_file } => WalkEventModel::Entry {
                path: path@,
                is_file: *is_file,
            },
            WalkEvent::Size(size) => WalkEventModel::Size(*size),
            WalkEvent::Head(head) => WalkEventModel::Head(
                match head {
                    Some(bytes) => Some(bytes@),
                    None => None,
                },
            ),
            WalkEvent::Loaded(loaded) => WalkEventModel::Loaded(loaded@),
            WalkEvent::Stored(done) => WalkEventModel::Stored(*done),
        }
    }
}

/// How the content of a file is loaded.
#[derive(Debug, Clone, Copy, PartialEq, Eq, Structural)]
pub enum Source {
    /// As bytes.
    Bytes,
    /// As the text of a notebook.
    Body,
    /// By the PDF decoder.
    Pdf,
    /// By the workbook decoder.
    Sheets,
    /// As bytes, by the document decoder.
    Blocks,
}

/// What is to be done next.
#[derive(Debug)]
pub enum WalkAction {
    /// Go on to the next entry.
    Next,
    /// Tell the size of the file at hand.
    Stat,
    /// Read the first bytes of the file at hand.
    Peek,
    /// Load the content of the file at hand.
    Load(Source),
    /// Execute the statement, and tell whether it succeeded.
    Store(Statement),
    /// Tell whether the statement that was handed out succeeded.
    Await,
    /// Nothing more: the walk has failed, with the failure of the last statement.
    Stop,
}

/// A `WalkAction` over sequences.
pub enum WalkActionModel {
    Next,
    Stat,
    Peek,
    Load(Source),
    Store(StatementModel),
    Await,
    Stop,
}

impl View for WalkAction {
    type V = WalkActionModel;

    open spec fn view(&self) -> WalkActionModel {
        match self {
            WalkAction::Next => WalkActionModel::Next,
            WalkAction::Stat => WalkActionModel::Stat,
            WalkAction::Peek => WalkActionModel::Peek,
            WalkAction::Load(source) => WalkActionModel::Load(*source),
            WalkAction::Store(statement) => WalkActionModel::Store(statement@),
            WalkAction::Await => WalkActionModel::Await,
            WalkAction::Stop => WalkActionModel::Stop,
        }
    }
}

/// The state of a walk over a source tree.
#[derive(Debug)]
pub struct Walk {
    /// The root of the source tree.
    pub root: String,
    /// Whether PDF, word-processor and spreadsheet documents are indexed.
    pub binary_docs: bool,
    /// The globs that the repository flags as generated.
    pub linguist: Option<GlobSet>,
    /// How many entries could not be read.
    pub unreadable: u64,
    /// How many files had been seen at the last progress line.
    pub progress_files: u64,
    /// What the walk waits for.
    pub pending: Pending,
}

/// What the walk goes by.
pub struct WalkRules {
    pub root: Seq<char>,
    pub binary_docs: bool,
    pub linguist: Option<GlobSet>,
}

/// What the walk has counted.
pub struct Tally {
    pub files_seen: int,
    pub code_upserts: int,
    pub doc_upserts: int,
    pub md_doc_upserts: int,
    pub binary_upserts: int,
    pub skipped: int,
    pub read_errors: int,
    pub unreadable: int,
    pub samples: Seq<Seq<char>>,
}

/// What the walk waits for and what it has counted.
pub struct WalkModel {
    pub pending: PendingModel,
    pub tally: Tally,
}

impl Walk {
    /// What this walk goes by.
    pub open spec fn rules(&self) -> WalkRules {
        WalkRules { root: self.root@, binary_docs: self.binary_docs, linguist: self.linguist }
    }

    /// A walk over the tree at `root` that has not begun. Binary documents are
    /// indexed where that is asked for and the native decoders are part of the
    /// build.
    pub fn new(
        root: &str,
        include_binary_docs: bool,
        native: bool,
        linguist: Option<GlobSet>,
    ) -> (r: Walk)
        ensures
            r.rules() == (WalkRules {
                root: root@,
                binary_docs: include_binary_docs && native,
                linguist,
            }),
            r.unreadable == 0,
            r.progress_files == 0,
            r.pending@ == PendingModel::Idle,
    {
        Walk {
            root: root.to_owned(),
            binary_docs: include_binary_docs && native,
            linguist,
            unreadable: 0,
            progress_files: 0,
            pending: Pending::Idle,
        }
    }
}

/// What a walk and its summary have counted.
pub open spec fn tally_of<C, D, L>(walk: Walk, summary: IngestSummary<C, D, L>) -> Tally {
    Tally {
        files_seen: summary.files_seen as int,
        code_upserts: summary.code_upserts as int,
        doc_upserts: summary.doc_upserts as int,
        md_doc_upserts: summary.md_doc_upserts as int,
        binary_upserts: summary.binary_upserts as int,
        skipped: summary.skipped as int,
        read_errors: summary.read_errors as int,
        unreadable: walk.unreadable as int,
        samples: texts(summary.read_error_samples@),
    }
}

/// The state of a walk and its summary.
pub open spec fn model_of<C, D, L>(walk: Walk, summary: IngestSummary<C, D, L>) -> WalkModel {
    WalkModel { pending: walk.pending@, tally: tally_of(walk, summary) }
}

/// Whether a file is at hand that no count but that of the files seen holds yet. A
/// file of Markdown counts as code before it is stored as a document as well.
pub open spec fn is_at_hand(pending: PendingModel) -> bool {
    match pending {
        PendingModel::Idle => false,
        PendingModel::Upsert { table, .. } => table != Table::DocsMd,
        PendingModel::Stopped { table } => table != Table::DocsMd,
        _ => true,
    }
}

/// Whether the upserts of the file at hand go where its kind belongs: Markdown to the
/// sources and then to the Markdown documents, other code to the sources, and the
/// rest to the documents.
pub open spec fn is_routed(pending: PendingModel) -> bool {
    match pending {
        PendingModel::Upsert { kind, table, left } => match kind {
            FileKind::CodeAndDoc(_) => (table == Table::Src && left.len() == 1 && left[0].table
                == Table::DocsMd) || (table == Table::DocsMd && left.len() == 0),
            FileKind::Code(_) | FileKind::Notebook => table == Table::Src && left.len() == 0,
            FileKind::Skip => false,
            _ => table == Table::Docs && left.len() == 0,
        },
        _ => true,
    }
}

/// Every file that was seen is accounted for: it is at hand, or it was skipped, or
/// it is a read error, or it was stored as code, as a document or as a binary
/// document. Markdown documents are code as well, and the first read errors of
/// files have a sample each.
pub open spec fn is_accounted(m: WalkModel) -> bool {
    let t = m.tally;
    let failed = t.read_errors - t.unreadable;
    let at_hand: int = if is_at_hand(m.pending) {
        1
    } else {
        0
    };
    &&& is_routed(m.pending)
    &&& m.pending is Upsert && m.pending->Upsert_table == Table::DocsMd ==> t.md_doc_upserts
        < t.code_upserts
    &&& t.files_seen == at_hand + t.skipped + failed + t.code_upserts + t.doc_upserts
        + t.binary_upserts
    &&& 0 <= t.skipped && 0 <= t.code_upserts && 0 <= t.doc_upserts && 0 <= t.binary_upserts
    &&& 0 <= t.md_doc_upserts <= t.code_upserts
    &&& 0 <= t.unreadable <= t.read_errors
    &&& t.samples.len() == if failed < MAX_ERROR_SAMPLES {
        failed
    } else {
        MAX_ERROR_SAMPLES as int
    }
}

/// Whether files of a kind are indexed.
pub open spec fn is_wanted(rules: WalkRules, kind: FileKind) -> bool {
    match kind {
        FileKind::Skip => false,
        FileKind::Pdf | FileKind::Docx | FileKind::Xlsx => rules.binary_docs,
        _ => true,
    }
}

/// The state after the file at hand was skipped.
pub open spec fn after_skip(m: WalkModel) -> WalkModel {
    WalkModel {
        pending: PendingModel::Idle,
        tally: Tally { skipped: m.tally.skipped + 1, ..m.tally },
    }
}

/// The state after the file at hand passed the generated-file checks, or was
/// exempt from them.
pub open spec fn after_screening(
    rules: WalkRules,
    m: WalkModel,
    path: Seq<char>,
    rel: Seq<char>,
    kind: FileKind,
) -> WalkModel {
    if is_wanted(rules, kind) {
        WalkModel { pending: PendingModel::Content { path, rel, kind }, ..m }
    } else {
        after_skip(m)
    }
}

/// The counts after an upsert into a table succeeded, for a file of a kind.
pub open spec fn after_upsert(kind: FileKind, table: Table, t: Tally) -> Tally {
    match table {
        Table::Src => Tally { code_upserts: t.code_upserts + 1, ..t },
        Table::DocsMd => Tally { md_doc_upserts: t.md_doc_upserts + 1, ..t },
        Table::Docs => if kind is Text {
            Tally { doc_upserts: t.doc_upserts + 1, ..t }
        } else {
            Tally { binary_upserts: t.binary_upserts + 1, ..t }
        },
    }
}

/// What the walk waits for once it has handed out the first of some statements for a
/// file of a kind.
pub open spec fn after_handing_out(
    kind: FileKind,
    statements: Seq<StatementModel>,
) -> PendingModel {
    PendingModel::Upsert { kind, table: statements[0].table, left: statements.drop_first() }
}

/// The counts after a file could not be read.
pub open spec fn after_error(t: Tally, path: Seq<char>, reason: Seq<char>) -> Tally {
    Tally { read_errors: t.read_errors + 1, samples: sampled(t.samples, path, reason), ..t }
}

/// The state of the walk after an event. An event that the walk does not wait for
/// changes nothing.
pub open spec fn walk_next(rules: WalkRules, m: WalkModel, event: WalkEventModel) -> WalkModel {
    let t = m.tally;
    match (m.pending, event) {
        (PendingModel::Idle, WalkEventModel::Unreadable) => WalkModel {
            tally: Tally { read_errors: t.read_errors + 1, unreadable: t.unreadable + 1, ..t },
            ..m
        },
        (PendingModel::Idle, WalkEventModel::Entry { path, is_file }) => if is_file && !is_in_kb(
            path,
        ) {
            WalkModel {
                pending: PendingModel::Size { path },
                tally: Tally { files_seen: t.files_seen + 1, ..t },
            }
        } else {
            m
        },
        (PendingModel::Size { path }, WalkEventModel::Size(size)) => {
            let rel = relative(path, rules.root);
            let kind = kind_of(path);
            if size is None || size->0 > MAX_FILE_BYTES {
                after_skip(m)
            } else if !is_screened(kind) {
                after_screening(rules, m, path, rel, kind)
            } else if is_linguist_generated(rules.linguist, rel) {
                after_skip(m)
            } else {
                WalkModel { pending: PendingModel::Head { path, rel, kind }, ..m }
            }
        },
        (PendingModel::Head { path, rel, kind }, WalkEventModel::Head(head)) => if head is Some
            && is_marked_generated(head->0) {
            after_skip(m)
        } else {
            after_screening(rules, m, path, rel, kind)
        },
        (PendingModel::Content { path, rel, kind }, WalkEventModel::Loaded(loaded)) => if fits(
            kind,
            loaded,
        ) {
            match content_of(kind, path, loaded) {
                Ok((content, tag)) => WalkModel {
                    pending: after_handing_out(kind, stored(kind, rel, content, tag)),
                    ..m
                },
                Err(reason) => WalkModel {
                    pending: PendingModel::Idle,
                    tally: after_error(t, path, reason),
                },
            }
        } else {
            m
        },
        (PendingModel::Upsert { kind, table, left }, WalkEventModel::Stored(done)) => if !done {
            WalkModel { pending: PendingModel::Stopped { table }, ..m }
        } else {
            WalkModel {
                pending: if left.len() > 0 {
                    after_handing_out(kind, left)
                } else {
                    PendingModel::Idle
                },
                tally: after_upsert(kind, table, t),
            }
        },
        _ => m,
    }
}

/// How the content of a kind of file is loaded.
pub open spec fn source_of(kind: FileKind) -> Source {
    match kind {
        FileKind::Notebook => Source::Body,
        FileKind::Pdf => Source::Pdf,
        FileKind::Docx => Source::Blocks,
        FileKind::Xlsx => Source::Sheets,
        _ => Source::Bytes,
    }
}

/// What brings the event that the walk waits for.
pub open spec fn owed(pending: PendingModel) -> WalkActionModel {
    match pending {
        PendingModel::Idle => WalkActionModel::Next,
        PendingModel::Size { .. } => WalkActionModel::Stat,
        PendingModel::Head { .. } => WalkActionModel::Peek,
        PendingModel::Content { kind, .. } => WalkActionModel::Load(source_of(kind)),
        PendingModel::Upsert { .. } => WalkActionModel::Await,
        PendingModel::Stopped { .. } => WalkActionModel::Stop,
    }
}

/// What is to be done after an event: the content of a file is stored once it was
/// loaded, one statement after another, and otherwise what the walk waits for next
/// is fetched.
pub open spec fn walk_action(
    rules: WalkRules,
    m: WalkModel,
    event: WalkEventModel,
) -> WalkActionModel {
    match (m.pending, event) {
        (PendingModel::Content { path, rel, kind }, WalkEventModel::Loaded(loaded)) if fits(
            kind,
            loaded,
        ) && content_of(kind, path, loaded) is Ok => {
            let found = content_of(kind, path, loaded)->Ok_0;
            WalkActionModel::Store(stored(kind, rel, found.0, found.1)[0])
        },
        (PendingModel::Upsert { left, .. }, WalkEventModel::Stored(true)) if left.len() > 0 =>
            WalkActionModel::Store(left[0]),
        _ => owed(walk_next(rules, m, event).pending),
    }
}

/// Whether a summary agrees with another in all that a walk does not count.
pub open spec fn same_reports<C, D, L>(
    a: IngestSummary<C, D, L>,
    b: IngestSummary<C, D, L>,
) -> bool {
    &&& a.elapsed_ms == b.elapsed_ms
    &&& a.code == b.code
    &&& a.docs == b.docs
    &&& a.docs_md == b.docs_md
    &&& a.links == b.links
    &&& a.distill == b.distill
    &&& a.llm_distill == b.llm_distill
}

fn loaded_fits(class: &Class<'static>, loaded: &Loaded) -> (r: bool)
    ensures
        r == fits(class@, loaded@),
{
    match (class, loaded) {
        (Class::Notebook, Loaded::Body(_)) => true,
        (Class::Pdf, Loaded::Pdf(_)) => true,
        (Class::Xlsx, Loaded::Sheets(_)) => true,
        (Class::Code(_), Loaded::Bytes(_)) => true,
        (Class::CodeAndDoc(_), Loaded::Bytes(_)) => true,
        (Class::Text, Loaded::Bytes(_)) => true,
        (Class::Docx, Loaded::Blocks(_)) => true,
        _ => false,
    }
}

fn action_for(pending: &Pending) -> (r: WalkAction)
    ensures
        r@ == owed(pending@),
{
    match pending {
        Pending::Idle => WalkAction::Next,
        Pending::Size { .. } => WalkAction::Stat,
        Pending::Head { .. } => WalkAction::Peek,
        Pending::Content { class, .. } => WalkAction::Load(
            match class {
                Class::Notebook => Source::Body,
                Class::Pdf => Source::Pdf,
                Class::Docx => Source::Blocks,
                Class::Xlsx => Source::Sheets,
                _ => Source::Bytes,
            },
        ),
        Pending::Upsert { .. } => WalkAction::Await,
        Pending::Stopped { .. } => WalkAction::Stop,
    }
}

fn wanted(binary_docs: bool, class: &Class<'static>) -> (r: bool)
    ensures
        forall|rules: WalkRules|
            rules.binary_docs == binary_docs ==> r == #[trigger] is_wanted(rules, class@),
{
    match class {
        Class::Skip => false,
        Class::Pdf => binary_docs,
        Class::Docx => binary_docs,
        Class::Xlsx => binary_docs,
        _ => true,
    }
}

/// Hands out the first of some statements for a file of a class, and keeps the others.
fn hand_out(walk: &mut Walk, class: Class<'static>, statements: Vec<Statement>) -> (r: WalkAction)
    requires
        statements@.len() > 0,
    ensures
        r@ == WalkActionModel::Store(statements@[0]@),
        final(walk).pending@ == after_handing_out(
            class@,
            statements@.map_values(|s: Statement| s@),
        ),
        *final(walk) == (Walk { pending: final(walk).pending, ..*old(walk) }),
{
    let mut left = statements;
    let first: Statement = left.remove(0);
    walk.pending = Pending::Upsert { class, table: first.table, left };
    assert(walk.pending@->Upsert_left =~= statements@.map_values(
        |s: Statement| s@,
    ).drop_first());
    WalkAction::Store(first)
}

/// Takes the walk one event further and tells what is to be done next.
pub fn walk_and_upsert<C, D, L>(
    walk: &mut Walk,
    summary: &mut IngestSummary<C, D, L>,
    event: WalkEvent,
) -> (r: WalkAction)
    requires
        is_accounted(model_of(*old(walk), *old(summary))),
        old(summary).files_seen < u64::MAX,
        old(summary).read_errors < u64::MAX,
    ensures
        is_accounted(model_of(*final(walk), *final(summary))),
        model_of(*final(walk), *final(summary)) == walk_next(
            old(walk).rules(),
            model_of(*old(walk), *old(summary)),
            event@,
        ),
        r@ == walk_action(old(walk).rules(), model_of(*old(walk), *old(summary)), event@),
        final(walk).rules() == old(walk).rules(),
        final(walk).progress_files == old(walk).progress_files,
        same_reports(*final(summary), *old(summary)),
{
    let ghost rules = walk.rules();
    let ghost before = model_of(*walk, *summary);
    let mut pending = Pending::Idle;
    std::mem::swap(&mut pending, &mut walk.pending);
    match (pending, event) {
        (Pending::Idle, WalkEvent::Unreadable) => {
            summary.read_errors = summary.read_errors + 1;
            walk.unreadable = walk.unreadable + 1;
        },
        (Pending::Idle, WalkEvent::Entry { path, is_file }) => {
            if is_file && !has_segment(path.as_str(), ".helios-kb") && !has_segment(
                path.as_str(),
                ".helios-index",
            ) {
                summary.files_seen = summary.files_seen + 1;
                walk.pending = Pending::Size { path };
            }
        },
        (Pending::Size { path }, WalkEvent::Size(size)) => {
            let small: bool = match size {
                Some(n) => n <= MAX_FILE_BYTES,
                None => false,
            };
            if !small {
                summary.skipped = summary.skipped + 1;
            } else {
                let class = classify(path.as_str());
                let rel = relative_path(path.as_str(), walk.root.as_str());
                if screened(&class) {
                    if linguist_generated(&walk.linguist, rel.as_str()) {
                        summary.skipped = summary.skipped + 1;
                    } else {
                        walk.pending = Pending::Head { path, rel, class };
                    }
                } else if wanted(walk.binary_docs, &class) {
                    walk.pending = Pending::Content { path, rel, class };
                } else {
                    summary.skipped = summary.skipped + 1;
                }
            }
        },
        (Pending::Head { path, rel, class }, WalkEvent::Head(head)) => {
            let marked: bool = match &head {
                Some(bytes) => is_generated_file(bytes.as_slice()),
                None => false,
            };
            if !marked && wanted(walk.binary_docs, &class) {
                walk.pending = Pending::Content { path, rel, class };
            } else {
                summary.skipped = summary.skipped + 1;
            }
        },
        (Pending::Content { path, rel, class }, WalkEvent::Loaded(loaded)) => {
            if loaded_fits(&class, &loaded) {
                match file_content(class, path.as_str(), loaded) {
                    Ok((content, tag)) => {
                        let statements = file_statements(
                            class,
                            rel.as_str(),
                            content.as_str(),
                            tag,
                        );
                        return hand_out(walk, class, statements);
                    },
                    Err(reason) => {
                        record_read_error(summary, path.as_str(), reason.as_str());
                    },
                }
            } else {
                walk.pending = Pending::Content { path, rel, class };
            }
        },
        (Pending::Upsert { class, table, left }, WalkEvent::Stored(done)) => {
            if !done {
                walk.pending = Pending::Stopped { table };
            } else {
                match table {
                    Table::Src => {
                        summary.code_upserts = summary.code_upserts + 1;
                    },
                    Table::DocsMd => {
                        summary.md_doc_upserts = summary.md_doc_upserts + 1;
                    },
                    Table::Docs => {
                        let text: bool = match class {
                            Class::Text => true,
                            _ => false,
                        };
                        if text {
                            summary.doc_upserts = summary.doc_upserts + 1;
                        } else {
                            summary.binary_upserts = summary.binary_upserts + 1;
                        }
                    },
                }
                if left.len() > 0 {
                    return hand_out(walk, class, left);
                }
            }
        },
        (other, _) => {
            walk.pending = other;
        },
    }
    action_for(&walk.pending)
}

/// Whether a progress line is due, `millis` milliseconds after the last one; if so,
/// the count starts anew.
pub fn progress_due(walk: &mut Walk, files_seen: u64, millis: u64) -> (r: bool)
    ensures
        r == (millis >= PROGRESS_MILLIS || files_seen - old(walk).progress_files
            >= PROGRESS_EVERY_FILES),
        *final(walk) == (Walk {
            progress_files: if r {
                files_seen
            } else {
                old(walk).progress_files
            },
            ..*old(walk)
        }),
{
    let since: u64 = if files_seen > walk.progress_files {
        files_seen - walk.progress_files
    } else {
        0
    };
    if millis >= PROGRESS_MILLIS || since >= PROGRESS_EVERY_FILES {
        walk.progress_files = files_seen;
        true
    } else {
        false
    }
}

} // verus!
