//! Which files are indexed, and as what.

use crate::paths::{extension, path_extension};
use crate::text::{lowered, same_text, to_lower};
use vstd::prelude::*;

verus! {

/// How a file is indexed.
#[derive(Debug, Clone, Copy)]
pub enum Class<'a> {
    /// Parsed into the code graph, under the engine's tag for the language.
    Code(&'a str),
    /// Parsed into the code graph, so that its headings become symbols, and also
    /// projected as a document that is cut at its headings.
    CodeAndDoc(&'a str),
    /// Retrieved as one flat text.
    Text,
    /// A Jupyter notebook, of which the code cells are indexed.
    Notebook,
    /// A PDF document.
    Pdf,
    /// A word-processor document.
    Docx,
    /// A spreadsheet.
    Xlsx,
    /// Not indexed.
    Skip,
}

/// A `Class` with its language tag as a sequence of characters.
pub enum FileKind {
    Code(Seq<char>),
    CodeAndDoc(Seq<char>),
    Text,
    Notebook,
    Pdf,
    Docx,
    Xlsx,
    Skip,
}

impl<'a> View for Class<'a> {
    type V = FileKind;

    open spec fn view(&self) -> FileKind {
        match self {
            Class::Code(lang) => FileKind::Code(lang@),
            Class::CodeAndDoc(lang) => FileKind::CodeAndDoc(lang@),
            Class::Text => FileKind::Text,
            Class::Notebook => FileKind::Notebook,
            Class::Pdf => FileKind::Pdf,
            Class::Docx => FileKind::Docx,
            Class::Xlsx => FileKind::Xlsx,
            Class::Skip => FileKind::Skip,
        }
    }
}

/// The kind of the files with a given extension in lower case.
pub open spec fn kind_of_extension(ext: Seq<char>) -> FileKind {
    if ext == "rs"@ {
        FileKind::Code("rust"@)
    } else if ext == "py"@ {
        FileKind::Code("python"@)
    } else if ext == "ts"@ {
        FileKind::Code("typescript"@)
    } else if ext == "tsx"@ {
        FileKind::Code("tsx"@)
    } else if ext == "js"@ || ext == "mjs"@ || ext == "cjs"@ {
        FileKind::Code("javascript"@)
    } else if ext == "go"@ {
        FileKind::Code("go"@)
    } else if ext == "sql"@ {
        FileKind::Code("sql"@)
    } else if ext == "md"@ || ext == "markdown"@ {
        FileKind::CodeAndDoc("markdown"@)
    } else if ext == "ipynb"@ {
        FileKind::Notebook
    } else if ext == "graphql"@ || ext == "gql"@ || ext == "proto"@ || ext == "thrift"@ {
        FileKind::Text
    } else if ext == "txt"@ || ext == "rst"@ || ext == "tex"@ || ext == "org"@ || ext == "log"@
        || ext == "toml"@ || ext == "yaml"@ || ext == "yml"@ || ext == "json"@ || ext == "ini"@
        || ext == "cfg"@
    {
        FileKind::Text
    } else if ext == "pdf"@ {
        FileKind::Pdf
    } else if ext == "docx"@ {
        FileKind::Docx
    } else if ext == "xlsx"@ || ext == "xlsm"@ {
        FileKind::Xlsx
    } else {
        FileKind::Skip
    }
}

/// The kind of the file that a path names: by its extension, whatever the case
/// of its letters; a file without one is skipped.
pub open spec fn kind_of(path: Seq<char>) -> FileKind {
    match extension(path) {
        Some(ext) => kind_of_extension(lowered(ext)),
        None => FileKind::Skip,
    }
}

fn classify_extension(ext: &str) -> (r: Class<'static>)
    ensures
        r@ == kind_of_extension(ext@),
{
    if same_text(ext, "rs") {
        Class::Code("rust")
    } else if same_text(ext, "py") {
        Class::Code("python")
    } else if same_text(ext, "ts") {
        Class::Code("typescript")
    } else if same_text(ext, "tsx") {
        Class::Code("tsx")
    } else if same_text(ext, "js") || same_text(ext, "mjs") || same_text(ext, "cjs") {
        Class::Code("javascript")
    } else if same_text(ext, "go") {
        Class::Code("go")
    } else if same_text(ext, "sql") {
        Class::Code("sql")
    } else if same_text(ext, "md") || same_text(ext, "markdown") {
        Class::CodeAndDoc("markdown")
    } else if same_text(ext, "ipynb") {
        Class::Notebook
    } else if same_text(ext, "graphql") || same_text(ext, "gql") || same_text(ext, "proto")
        || same_text(ext, "thrift")
    {
        Class::Text
    } else if same_text(ext, "txt") || same_text(ext, "rst") || same_text(ext, "tex")
        || same_text(ext, "org") || same_text(ext, "log") || same_text(ext, "toml")
        || same_text(ext, "yaml") || same_text(ext, "yml") || same_text(ext, "json")
        || same_text(ext, "ini") || same_text(ext, "cfg")
    {
        Class::Text
    } else if same_text(ext, "pdf") {
        Class::Pdf
    } else if same_text(ext, "docx") {
        Class::Docx
    } else if same_text(ext, "xlsx") || same_text(ext, "xlsm") {
        Class::Xlsx
    } else {
        Class::Skip
    }
}

/// Classifies a file by the extension of its name.
pub fn classify(path: &str) -> (r: Class<'static>)
    ensures
        r@ == kind_of(path@),
{
    match path_extension(path) {
        Some(ext) => classify_extension(to_lower(ext.as_str()).as_str()),
        None => Class::Skip,
    }
}

/// Whether the generated-file checks apply to a kind: to code and to notebooks.
/// Text and documents are indexed even where a tool wrote them.
pub open spec fn is_screened(kind: FileKind) -> bool {
    kind is Code || kind is Notebook
}

/// Whether the generated-file checks apply to a class.
pub fn screened(class: &Class) -> (r: bool)
    ensures
        r == is_screened(class@),
{
    match class {
        Class::Code(_) => true,
        Class::Notebook => true,
        _ => false,
    }
}

/// The kind of a file depends on nothing but its extension, and not on the case
/// of the extension's letters.
pub proof fn law_kind_ignores_case(one: Seq<char>, other: Seq<char>)
    requires
        extension(one) is Some,
        extension(other) is Some,
        lowered(extension(one)->0) == lowered(extension(other)->0),
    ensures
        kind_of(one) == kind_of(other),
{
}

} // verus!
