//! The code of a Jupyter notebook.

use crate::text::{lowered, same_text, to_lower};
use vstd::prelude::*;

verus! {

/// A JSON value. Numbers are not told apart.
#[derive(Debug)]
pub enum Json {
    Null,
    Bool(bool),
    Number,
    Text(String),
    Array(Vec<Json>),
    Object(Vec<(String, Json)>),
}

/// A JSON value over sequences.
pub enum JsonModel {
    Null,
    Bool(bool),
    Number,
    Text(Seq<char>),
    Array(Seq<JsonModel>),
    Object(Seq<(Seq<char>, JsonModel)>),
}

/// What a `Json` stands for.
pub open spec fn json_view(json: Json) -> JsonModel
    decreases json,
{
    match json {
        Json::Null => JsonModel::Null,
        Json::Bool(b) => JsonModel::Bool(b),
        Json::Number => JsonModel::Number,
        Json::Text(s) => JsonModel::Text(s@),
        Json::Array(items) => JsonModel::Array(
            Seq::new(
                items@.len(),
                |i: int|
                    if 0 <= i < items@.len() {
                        json_view(items@[i])
                    } else {
                        JsonModel::Null
                    },
            ),
        ),
        Json::Object(members) => JsonModel::Object(
            Seq::new(
                members@.len(),
                |i: int|
                    (
                        members@[i].0@,
                        if 0 <= i < members@.len() {
                            json_view(members@[i].1)
                        } else {
                            JsonModel::Null
                        },
                    ),
            ),
        ),
    }
}

impl View for Json {
    type V = JsonModel;

    open spec fn view(&self) -> JsonModel {
        json_view(*self)
    }
}

/// `serde_json::Value`, a JSON value that was parsed.
#[verifier::external_type_specification]
#[verifier::external_body]
pub struct ExJsonValue(serde_json::Value);

/// `serde_json::Error`, of which nothing is read.
#[verifier::external_type_specification]
#[verifier::external_body]
pub struct ExJsonError(serde_json::Error);

/// The value that `serde_json::from_str` reads from a text, if the text is JSON.
pub uninterp spec fn json_of_text(body: Seq<char>) -> Option<JsonModel>;

/// What a `serde_json::Value` holds.
pub uninterp spec fn json_of_value(value: serde_json::Value) -> JsonModel;

/// `serde_json::from_str`, for a `serde_json::Value`: both whether it succeeds and
/// the value depend on the text alone.
#[verifier::external_body]
fn parse_json(body: &str) -> (r: Result<serde_json::Value, serde_json::Error>)
    ensures
        r is Ok == json_of_text(body@) is Some,
        r is Ok ==> json_of_text(body@) == Some(json_of_value(r->Ok_0)),
{
    serde_json::from_str(body)
}

/// A `serde_json::Value` as a `Json`, variant for variant. The members of an
/// object come in the order in which `serde_json::Map` hands them out.
#[verifier::external_body]
fn json_from_value(value: serde_json::Value) -> (r: Json)
    ensures
        r@ == json_of_value(value),
{
    match value {
        serde_json::Value::Null => Json::Null,
        serde_json::Value::Bool(b) => Json::Bool(b),
        serde_json::Value::Number(_) => Json::Number,
        serde_json::Value::String(s) => Json::Text(s),
        serde_json::Value::Array(a) => Json::Array(a.into_iter().map(json_from_value).collect()),
        serde_json::Value::Object(m) => Json::Object(
            m.into_iter().map(|(k, v)| (k, json_from_value(v))).collect(),
        ),
    }
}

/// The value of the first member with a given name.
pub open spec fn first_member(members: Seq<(Seq<char>, JsonModel)>, name: Seq<char>) -> Option<
    JsonModel,
>
    decreases members.len(),
{
    if members.len() == 0 {
        None
    } else if members[0].0 == name {
        Some(members[0].1)
    } else {
        first_member(members.drop_first(), name)
    }
}

/// The member of a value with a given name; only objects have members.
pub open spec fn member(value: JsonModel, name: Seq<char>) -> Option<JsonModel> {
    match value {
        JsonModel::Object(members) => first_member(members, name),
        _ => None,
    }
}

/// The text that a value is.
pub open spec fn text_of(value: Option<JsonModel>) -> Option<Seq<char>> {
    match value {
        Some(JsonModel::Text(s)) => Some(s),
        _ => None,
    }
}

/// The items of an array, and none of any other value.
pub open spec fn items_of(value: Option<JsonModel>) -> Seq<JsonModel> {
    match value {
        Some(JsonModel::Array(items)) => items,
        _ => Seq::empty(),
    }
}

impl Json {
    /// The member of a value with a given name; only objects have members.
    pub fn get(&self, name: &str) -> (r: Option<&Json>)
        ensures
            match r {
                Some(v) => member(self@, name@) == Some(v@),
                None => member(self@, name@) is None,
            },
    {
        match self {
            Json::Object(members) => {
                let ghost all = self@->Object_0;
                let mut i: usize = 0;
                assert(all.skip(0) =~= all);
                while i < members.len()
                    invariant
                        i <= members@.len(),
                        self@ == JsonModel::Object(all),
                        all.len() == members@.len(),
                        forall|j: int|
                            0 <= j < members@.len() ==> #[trigger] all[j] == (
                                members@[j].0@,
                                members@[j].1@,
                            ),
                        first_member(all, name@) == first_member(all.skip(i as int), name@),
                    decreases members.len() - i,
                {
                    let entry: &(String, Json) = &members[i];
                    assert(all.skip(i as int)[0] == all[i as int]);
                    assert(all.skip(i as int).drop_first() =~= all.skip(i + 1));
                    if same_text(entry.0.as_str(), name) {
                        return Some(&entry.1);
                    }
                    i = i + 1;
                }
                None
            },
            _ => None,
        }
    }

    /// The text that a value is.
    pub fn as_str(&self) -> (r: Option<&str>)
        ensures
            match r {
                Some(s) => text_of(Some(self@)) == Some(s@),
                None => text_of(Some(self@)) is None,
            },
    {
        match self {
            Json::Text(s) => Some(s.as_str()),
            _ => None,
        }
    }

    /// The items that a value has.
    pub fn as_array(&self) -> (r: Option<&Vec<Json>>)
        ensures
            match r {
                Some(v) => self@ is Array && v@.len() == self@->Array_0.len() && forall|i: int|
                    0 <= i < v@.len() ==> (#[trigger] v@[i])@ == self@->Array_0[i],
                None => !(self@ is Array),
            },
    {
        match self {
            Json::Array(items) => Some(items),
            _ => None,
        }
    }
}

/// The engine's tag for a kernel language in lower case. The kernel is a Python
/// one where nothing else is known.
pub open spec fn tag_of_language(language: Seq<char>) -> Seq<char> {
    if language == "typescript"@ || language == "javascript"@ || language == "rust"@ || language
        == "go"@ || language == "sql"@ {
        language
    } else {
        "python"@
    }
}

/// The language tag of a notebook: by its kernel's language, whatever the case of
/// the letters.
pub open spec fn notebook_tag(notebook: JsonModel) -> Seq<char> {
    let language = match member(notebook, "metadata"@) {
        None => None,
        Some(metadata) => match member(metadata, "kernelspec"@) {
            None => None,
            Some(kernel) => text_of(member(kernel, "language"@)),
        },
    };
    match language {
        Some(s) => tag_of_language(lowered(s)),
        None => "python"@,
    }
}

/// The texts among the items of an array, one after another.
pub open spec fn lines_text(lines: Seq<JsonModel>) -> Seq<char>
    decreases lines.len(),
{
    if lines.len() == 0 {
        Seq::empty()
    } else {
        match lines.last() {
            JsonModel::Text(s) => lines_text(lines.drop_last()) + s,
            _ => lines_text(lines.drop_last()),
        }
    }
}

/// What a cell adds to the code: the source of a code cell, one text or an array
/// of texts, and a line feed after it.
pub open spec fn cell_text(cell: JsonModel) -> Seq<char> {
    if text_of(member(cell, "cell_type"@)) != Some("code"@) {
        Seq::empty()
    } else {
        match member(cell, "source"@) {
            Some(JsonModel::Text(s)) => s.push('\n'),
            Some(JsonModel::Array(lines)) => lines_text(lines).push('\n'),
            _ => Seq::empty(),
        }
    }
}

/// What the cells add to the code, one after another.
pub open spec fn cells_text(cells: Seq<JsonModel>) -> Seq<char>
    decreases cells.len(),
{
    if cells.len() == 0 {
        Seq::empty()
    } else {
        cells_text(cells.drop_last()) + cell_text(cells.last())
    }
}

/// The code of a notebook: of all its cells, in order.
pub open spec fn notebook_text(notebook: JsonModel) -> Seq<char> {
    cells_text(items_of(member(notebook, "cells"@)))
}

fn language_tag(notebook: &Json) -> (r: &'static str)
    ensures
        r@ == notebook_tag(notebook@),
{
    if let Some(metadata) = notebook.get("metadata") {
        if let Some(kernel) = metadata.get("kernelspec") {
            if let Some(language) = kernel.get("language") {
                if let Some(name) = language.as_str() {
                    // Lowering the ASCII letters is enough: outside ASCII only the
                    // Kelvin sign lower-cases to a lone ASCII letter, a `k`, and no
                    // language here has one.
                    let tag = to_lower(name);
                    if same_text(tag.as_str(), "typescript") {
                        return "typescript";
                    }
                    if same_text(tag.as_str(), "javascript") {
                        return "javascript";
                    }
                    if same_text(tag.as_str(), "rust") {
                        return "rust";
                    }
                    if same_text(tag.as_str(), "go") {
                        return "go";
                    }
                    if same_text(tag.as_str(), "sql") {
                        return "sql";
                    }
                }
            }
        }
    }
    "python"
}

/// Appends what a cell adds to the code.
fn append_cell(out: &mut String, cell: &Json)
    ensures
        final(out)@ == old(out)@ + cell_text(cell@),
{
    let is_code: bool = match cell.get("cell_type") {
        Some(kind) => match kind.as_str() {
            Some(s) => same_text(s, "code"),
            None => false,
        },
        None => false,
    };
    if !is_code {
        assert(out@ =~= old(out)@ + cell_text(cell@));
        return;
    }
    let ghost before = out@;
    if let Some(source) = cell.get("source") {
        if let Some(s) = source.as_str() {
            out.append(s);
            out.push('\n');
            assert(out@ =~= before + cell_text(cell@));
            return;
        }
        if let Some(lines) = source.as_array() {
            let ghost all = source@->Array_0;
            let mut i: usize = 0;
            assert(out@ =~= before + lines_text(all.take(0)));
            while i < lines.len()
                invariant
                    i <= lines@.len(),
                    all.len() == lines@.len(),
                    forall|j: int| 0 <= j < lines@.len() ==> (#[trigger] lines@[j])@ == all[j],
                    out@ == before + lines_text(all.take(i as int)),
                decreases lines.len() - i,
            {
                assert(all.take(i + 1).drop_last() =~= all.take(i as int));
                assert(lines@[i as int]@ == all[i as int]);
                if let Some(s) = lines[i].as_str() {
                    out.append(s);
                }
                assert(out@ =~= before + lines_text(all.take(i + 1)));
                i = i + 1;
            }
            assert(all.take(all.len() as int) =~= all);
            out.push('\n');
            assert(out@ =~= before + cell_text(cell@));
            return;
        }
    }
    assert(out@ =~= before + cell_text(cell@));
}

/// The code of a notebook and its language tag.
pub fn notebook_code(notebook: &Json) -> (r: (String, &'static str))
    ensures
        r.0@ == notebook_text(notebook@),
        r.1@ == notebook_tag(notebook@),
{
    let tag = language_tag(notebook);
    let mut out = String::new();
    if let Some(found) = notebook.get("cells") {
        if let Some(cells) = found.as_array() {
            let ghost all = found@->Array_0;
            let mut i: usize = 0;
            assert(out@ =~= cells_text(all.take(0)));
            while i < cells.len()
                invariant
                    i <= cells@.len(),
                    all.len() == cells@.len(),
                    forall|j: int| 0 <= j < cells@.len() ==> (#[trigger] cells@[j])@ == all[j],
                    out@ == cells_text(all.take(i as int)),
                decreases cells.len() - i,
            {
                assert(all.take(i + 1).drop_last() =~= all.take(i as int));
                assert(cells@[i as int]@ == all[i as int]);
                append_cell(&mut out, &cells[i]);
                i = i + 1;
            }
            assert(all.take(all.len() as int) =~= all);
        }
    }
    (out, tag)
}

/// Extracts the code of a notebook and its language tag. `body` is the text of
/// the file at `path`, if it could be read.
pub fn extract_ipynb(path: &str, body: Option<&str>) -> (r: Result<(String, &'static str), String>)
    ensures
        match body {
            None => r is Err && r->Err_0@ == "read notebook "@ + path@,
            Some(text) => match json_of_text(text@) {
                None => r is Err && r->Err_0@ == "parse notebook "@ + path@ + " as JSON"@,
                Some(notebook) => r is Ok && r->Ok_0.0@ == notebook_text(notebook) && r->Ok_0.1@
                    == notebook_tag(notebook),
            },
        },
{
    match body {
        None => {
            let mut reason: String = "read notebook ".to_owned();
            reason.append(path);
            Err(reason)
        },
        Some(text) => match parse_json(text) {
            Ok(value) => {
                let notebook = json_from_value(value);
                Ok(notebook_code(&notebook))
            },
            Err(_) => {
                let mut reason: String = "parse notebook ".to_owned();
                reason.append(path);
                reason.append(" as JSON");
                Err(reason)
            },
        },
    }
}

/// Whatever a notebook says of its kernel, its tag is one that the engine knows.
pub proof fn law_notebook_tag_is_known(notebook: JsonModel)
    ensures
        notebook_tag(notebook) == "python"@ || notebook_tag(notebook) == "typescript"@
            || notebook_tag(notebook) == "javascript"@ || notebook_tag(notebook) == "rust"@
            || notebook_tag(notebook) == "go"@ || notebook_tag(notebook) == "sql"@,
{
}

} // verus!
