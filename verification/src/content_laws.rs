//! What the text of notebooks, documents and spreadsheets holds, whatever their size.

use crate::documents::{
    blocks_text, paragraph_text, rows_text, run_text, sheets_text, Block, BlockModel,
    ParagraphItem, ParagraphItemModel, RunItem, RunItemModel, Sheet, SheetModel,
};
use crate::notebook::{
    cell_text, cells_text, lines_text, member, notebook_tag, notebook_text, Json,
    JsonModel,
};
use crate::paths::law_joined_pieces;
use crate::text::{joined, lowered, pieces, texts, Cut};
use crate::text_laws::law_pieces;
use vstd::prelude::*;

verus! {

/// The value of a member is that of the first member with its name; without one there
/// is none, and only objects have members.
pub proof fn law_members(
    before: Seq<(Seq<char>, JsonModel)>,
    name: Seq<char>,
    value: JsonModel,
    after: Seq<(Seq<char>, JsonModel)>,
)
    requires
        forall|i: int| 0 <= i < before.len() ==> (#[trigger] before[i]).0 != name,
    ensures
        member(JsonModel::Object(before.push((name, value)) + after), name) == Some(value),
        member(JsonModel::Object(before), name) is None,
        !(value is Object) ==> member(value, name) is None,
    decreases before.len(),
{
    let all = before.push((name, value)) + after;
    if before.len() == 0 {
        assert(all[0] == (name, value));
    } else {
        let rest = before.drop_first();
        assert forall|i: int| 0 <= i < rest.len() implies (#[trigger] rest[i]).0 != name by {
            assert(rest[i] == before[i + 1]);
        }
        law_members(rest, name, value, after);
        assert(all[0] == before[0]);
        assert(all.drop_first() =~= rest.push((name, value)) + after);
    }
}

proof fn lemma_cells_add(a: Seq<JsonModel>, b: Seq<JsonModel>)
    ensures
        cells_text(a + b) == cells_text(a) + cells_text(b),
    decreases b.len(),
{
    let all = a + b;
    if b.len() == 0 {
        assert(all =~= a);
        assert(cells_text(all) =~= cells_text(a) + cells_text(b));
    } else {
        lemma_cells_add(a, b.drop_last());
        assert(all.drop_last() =~= a + b.drop_last());
        assert(cells_text(all) =~= cells_text(a) + cells_text(b));
    }
}

/// The code of a notebook is that of its cells, one after another and none left out,
/// however many there are.
pub proof fn law_notebook_code_adds_up(
    one: JsonModel,
    other: JsonModel,
    both: JsonModel,
    a: Seq<JsonModel>,
    b: Seq<JsonModel>,
)
    requires
        member(one, "cells"@) == Some(JsonModel::Array(a)),
        member(other, "cells"@) == Some(JsonModel::Array(b)),
        member(both, "cells"@) == Some(JsonModel::Array(a + b)),
    ensures
        notebook_text(both) == notebook_text(one) + notebook_text(other),
{
    lemma_cells_add(a, b);
}

/// A notebook without an array of cells, or with an empty one, has no code.
pub proof fn law_notebook_without_cells(notebook: JsonModel)
    requires
        member(notebook, "cells"@) matches Some(JsonModel::Array(cells)) ==> cells.len() == 0,
    ensures
        notebook_text(notebook) == Seq::<char>::empty(),
{
}

proof fn lemma_one_cell(cell: JsonModel)
    ensures
        cells_text(seq![cell]) == cell_text(cell),
{
    let one = seq![cell];
    assert(one.drop_last() =~= Seq::<JsonModel>::empty());
    assert(one.last() == cell);
    reveal_with_fuel(cells_text, 2);
    assert(cells_text(one) =~= cell_text(cell));
}

/// A cell that is not a code cell adds nothing, and neither does a code cell without
/// a source. A code cell with a text for its source adds the text and a line feed.
pub proof fn law_notebook_of_one_cell(notebook: JsonModel, cell: JsonModel)
    requires
        member(notebook, "cells"@) == Some(JsonModel::Array(seq![cell])),
    ensures
        member(cell, "cell_type"@) != Some(JsonModel::Text("code"@)) ==> notebook_text(notebook)
            == Seq::<char>::empty(),
        member(cell, "cell_type"@) == Some(JsonModel::Text("code"@)) ==> match member(
            cell,
            "source"@,
        ) {
            Some(JsonModel::Text(s)) => notebook_text(notebook) == s + seq!['\n'],
            Some(JsonModel::Array(_)) => notebook_text(notebook).len() > 0 && notebook_text(
                notebook,
            ).last() == '\n',
            _ => notebook_text(notebook) == Seq::<char>::empty(),
        },
{
    lemma_one_cell(cell);
    if let Some(JsonModel::Text(s)) = member(cell, "source"@) {
        assert(s.push('\n') =~= s + seq!['\n']);
    }
}

proof fn lemma_lines_add(a: Seq<JsonModel>, b: Seq<JsonModel>)
    ensures
        lines_text(a + b) == lines_text(a) + lines_text(b),
    decreases b.len(),
{
    let all = a + b;
    if b.len() == 0 {
        assert(all =~= a);
        assert(lines_text(all) =~= lines_text(a) + lines_text(b));
    } else {
        lemma_lines_add(a, b.drop_last());
        assert(all.drop_last() =~= a + b.drop_last());
        assert(lines_text(all) =~= lines_text(a) + lines_text(b));
    }
}

/// Whether a notebook has one cell, which is a code cell with an array for its source.
pub open spec fn has_lines(notebook: JsonModel, lines: Seq<JsonModel>) -> bool {
    &&& member(notebook, "cells"@) matches Some(JsonModel::Array(cells))
    &&& cells.len() == 1
    &&& is_code_of_lines(cells[0], lines)
}

/// Whether a cell is a code cell with an array for its source.
pub open spec fn is_code_of_lines(cell: JsonModel, lines: Seq<JsonModel>) -> bool {
    &&& member(cell, "cell_type"@) == Some(JsonModel::Text("code"@))
    &&& member(cell, "source"@) == Some(JsonModel::Array(lines))
}

/// Where the source of a code cell is an array, its texts are put one after another,
/// none left out, with one line feed at the end: the code of lines `a` and then `b` is
/// that of `a`, but for the line feed, and that of `b`; a text alone gives itself, and
/// anything else gives nothing.
pub proof fn law_lines_of_a_cell_add_up(
    one: JsonModel,
    other: JsonModel,
    both: JsonModel,
    a: Seq<JsonModel>,
    b: Seq<JsonModel>,
)
    requires
        has_lines(one, a),
        has_lines(other, b),
        has_lines(both, a + b),
    ensures
        notebook_text(both) == notebook_text(one).drop_last() + notebook_text(other),
        a.len() == 0 ==> notebook_text(one) == seq!['\n'],
        a.len() == 1 ==> match a[0] {
            JsonModel::Text(s) => notebook_text(one) == s + seq!['\n'],
            _ => notebook_text(one) == seq!['\n'],
        },
{
    lemma_lines_of(one, a);
    lemma_lines_of(other, b);
    lemma_lines_of(both, a + b);
    lemma_lines_add(a, b);
    assert(notebook_text(both) =~= notebook_text(one).drop_last() + notebook_text(other));
    if a.len() == 0 {
        assert(notebook_text(one) =~= seq!['\n']);
    }
    if a.len() == 1 {
        assert(a.drop_last() =~= Seq::<JsonModel>::empty());
        assert(a.last() == a[0]);
        reveal_with_fuel(lines_text, 2);
        if let JsonModel::Text(s) = a[0] {
            assert(notebook_text(one) =~= s + seq!['\n']);
        } else {
            assert(notebook_text(one) =~= seq!['\n']);
        }
    }
}

proof fn lemma_lines_of(notebook: JsonModel, lines: Seq<JsonModel>)
    requires
        has_lines(notebook, lines),
    ensures
        notebook_text(notebook) == lines_text(lines).push('\n'),
{
    let cells = member(notebook, "cells"@)->0->Array_0;
    assert(cells =~= seq![cells[0]]);
    lemma_one_cell(cells[0]);
}

/// A notebook's language is that of its kernel, whatever the case of the letters:
/// TypeScript, JavaScript, Rust, Go and SQL are known, and everything else, a missing
/// kernel too, counts as Python.
pub proof fn law_notebook_language(
    notebook: JsonModel,
    metadata: JsonModel,
    kernel: JsonModel,
    name: Seq<char>,
)
    ensures
        ({
            let stated = member(notebook, "metadata"@) == Some(metadata) && member(
                metadata,
                "kernelspec"@,
            ) == Some(kernel) && member(kernel, "language"@) == Some(JsonModel::Text(name));
            let tag = notebook_tag(notebook);
            let l = lowered(name);
            &&& stated && l == "typescript"@ ==> tag == "typescript"@
            &&& stated && l == "javascript"@ ==> tag == "javascript"@
            &&& stated && l == "rust"@ ==> tag == "rust"@
            &&& stated && l == "go"@ ==> tag == "go"@
            &&& stated && l == "sql"@ ==> tag == "sql"@
            &&& stated && l != "typescript"@ && l != "javascript"@ && l != "rust"@ && l != "go"@ && l
                != "sql"@ ==> tag == "python"@
        }),
        member(notebook, "metadata"@) is None ==> notebook_tag(notebook) == "python"@,
        member(notebook, "metadata"@) == Some(metadata) && member(metadata, "kernelspec"@) is None
            ==> notebook_tag(notebook) == "python"@,
        member(notebook, "metadata"@) == Some(metadata) && member(metadata, "kernelspec"@) == Some(
            kernel,
        ) && !(member(kernel, "language"@) matches Some(JsonModel::Text(_))) ==> notebook_tag(
            notebook,
        ) == "python"@,
{
}

/// A `Json` stands for the value with the same texts, items and members, in order.
pub proof fn law_json_values(text: String, items: Vec<Json>, members: Vec<(String, Json)>, i: int)
    ensures
        Json::Text(text)@ == JsonModel::Text(text@),
        Json::Array(items)@ is Array,
        Json::Array(items)@->Array_0.len() == items@.len(),
        0 <= i < items@.len() ==> Json::Array(items)@->Array_0[i] == items@[i]@,
        Json::Object(members)@ is Object,
        Json::Object(members)@->Object_0.len() == members@.len(),
        0 <= i < members@.len() ==> Json::Object(members)@->Object_0[i] == (
            members@[i].0@,
            members@[i].1@,
        ),
{
}

proof fn lemma_runs_add(a: Seq<RunItemModel>, b: Seq<RunItemModel>)
    ensures
        run_text(a + b) == run_text(a) + run_text(b),
    decreases b.len(),
{
    let all = a + b;
    if b.len() == 0 {
        assert(all =~= a);
        assert(run_text(all) =~= run_text(a) + run_text(b));
    } else {
        lemma_runs_add(a, b.drop_last());
        assert(all.drop_last() =~= a + b.drop_last());
        assert(run_text(all) =~= run_text(a) + run_text(b));
    }
}

/// The text of a run is that of its elements, one after another and none left out: a
/// text is itself, and anything else is nothing.
pub proof fn law_runs(a: Seq<RunItemModel>, b: Seq<RunItemModel>, s: Seq<char>)
    ensures
        run_text(a + b) == run_text(a) + run_text(b),
        run_text(seq![RunItemModel::Text(s)]) == s,
        run_text(seq![RunItemModel::Other]) == Seq::<char>::empty(),
        run_text(Seq::empty()) == Seq::<char>::empty(),
{
    lemma_runs_add(a, b);
    let text = seq![RunItemModel::Text(s)];
    let other = seq![RunItemModel::Other];
    assert(text.drop_last() =~= Seq::<RunItemModel>::empty());
    assert(other.drop_last() =~= Seq::<RunItemModel>::empty());
    reveal_with_fuel(run_text, 2);
    assert(run_text(text) =~= s);
}

proof fn lemma_paragraphs_add(a: Seq<ParagraphItemModel>, b: Seq<ParagraphItemModel>)
    ensures
        paragraph_text(a + b) == paragraph_text(a) + paragraph_text(b),
    decreases b.len(),
{
    let all = a + b;
    if b.len() == 0 {
        assert(all =~= a);
        assert(paragraph_text(all) =~= paragraph_text(a) + paragraph_text(b));
    } else {
        lemma_paragraphs_add(a, b.drop_last());
        assert(all.drop_last() =~= a + b.drop_last());
        assert(paragraph_text(all) =~= paragraph_text(a) + paragraph_text(b));
    }
}

/// The text of a paragraph is that of its runs, one after another and none left out.
pub proof fn law_paragraphs(
    a: Seq<ParagraphItemModel>,
    b: Seq<ParagraphItemModel>,
    run: Seq<RunItemModel>,
)
    ensures
        paragraph_text(a + b) == paragraph_text(a) + paragraph_text(b),
        paragraph_text(seq![ParagraphItemModel::Run(run)]) == run_text(run),
        paragraph_text(seq![ParagraphItemModel::Other]) == Seq::<char>::empty(),
        paragraph_text(Seq::empty()) == Seq::<char>::empty(),
{
    lemma_paragraphs_add(a, b);
    let one = seq![ParagraphItemModel::Run(run)];
    let other = seq![ParagraphItemModel::Other];
    assert(one.drop_last() =~= Seq::<ParagraphItemModel>::empty());
    assert(other.drop_last() =~= Seq::<ParagraphItemModel>::empty());
    reveal_with_fuel(paragraph_text, 2);
    assert(paragraph_text(one) =~= run_text(run));
}

proof fn lemma_blocks_add(a: Seq<BlockModel>, b: Seq<BlockModel>)
    ensures
        blocks_text(a + b) == blocks_text(a) + blocks_text(b),
    decreases b.len(),
{
    let all = a + b;
    if b.len() == 0 {
        assert(all =~= a);
        assert(blocks_text(all) =~= blocks_text(a) + blocks_text(b));
    } else {
        lemma_blocks_add(a, b.drop_last());
        assert(all.drop_last() =~= a + b.drop_last());
        assert(blocks_text(all) =~= blocks_text(a) + blocks_text(b));
    }
}

/// The text of a document is that of its paragraphs, one after another and none left
/// out, each with a line feed after it; the other elements of its body add nothing.
pub proof fn law_documents(a: Seq<BlockModel>, b: Seq<BlockModel>, items: Seq<ParagraphItemModel>)
    ensures
        blocks_text(a + b) == blocks_text(a) + blocks_text(b),
        blocks_text(seq![BlockModel::Paragraph(items)]) == paragraph_text(items) + seq!['\n'],
        blocks_text(seq![BlockModel::Other]) == Seq::<char>::empty(),
        blocks_text(Seq::empty()) == Seq::<char>::empty(),
{
    lemma_blocks_add(a, b);
    let one = seq![BlockModel::Paragraph(items)];
    let other = seq![BlockModel::Other];
    assert(one.drop_last() =~= Seq::<BlockModel>::empty());
    assert(other.drop_last() =~= Seq::<BlockModel>::empty());
    reveal_with_fuel(blocks_text, 2);
    assert(blocks_text(one) =~= paragraph_text(items) + seq!['\n']);
}

/// The elements of a document stand for those with the same texts, in order.
pub proof fn law_document_elements(
    text: String,
    run: Vec<RunItem>,
    items: Vec<ParagraphItem>,
    i: int,
)
    ensures
        RunItem::Text(text)@ == RunItemModel::Text(text@),
        RunItem::Other@ == RunItemModel::Other,
        ParagraphItem::Run(run)@ is Run,
        ParagraphItem::Run(run)@->Run_0.len() == run@.len(),
        0 <= i < run@.len() ==> ParagraphItem::Run(run)@->Run_0[i] == run@[i]@,
        ParagraphItem::Other@ == ParagraphItemModel::Other,
        Block::Paragraph(items)@ is Paragraph,
        Block::Paragraph(items)@->Paragraph_0.len() == items@.len(),
        0 <= i < items@.len() ==> Block::Paragraph(items)@->Paragraph_0[i] == items@[i]@,
        Block::Other@ == BlockModel::Other,
{
}

proof fn lemma_rows_add(a: Seq<Seq<Seq<char>>>, b: Seq<Seq<Seq<char>>>)
    ensures
        rows_text(a + b) == rows_text(a) + rows_text(b),
    decreases b.len(),
{
    let all = a + b;
    if b.len() == 0 {
        assert(all =~= a);
        assert(rows_text(all) =~= rows_text(a) + rows_text(b));
    } else {
        lemma_rows_add(a, b.drop_last());
        assert(all.drop_last() =~= a + b.drop_last());
        assert(rows_text(all) =~= rows_text(a) + rows_text(b));
    }
}

/// The text of rows is that of each, one after another and none left out: its cells
/// with a tab between each two, and a line feed.
pub proof fn law_rows(a: Seq<Seq<Seq<char>>>, b: Seq<Seq<Seq<char>>>, row: Seq<Seq<char>>)
    ensures
        rows_text(a + b) == rows_text(a) + rows_text(b),
        rows_text(seq![row]) == joined(row, '\t') + seq!['\n'],
        rows_text(Seq::empty()) == Seq::<char>::empty(),
{
    lemma_rows_add(a, b);
    let one = seq![row];
    assert(one.drop_last() =~= Seq::<Seq<Seq<char>>>::empty());
    reveal_with_fuel(rows_text, 2);
    assert(rows_text(one) =~= joined(row, '\t') + seq!['\n']);
}

/// Whether no cell holds a tab or a line feed, and no row is empty.
pub open spec fn is_plain_table(rows: Seq<Seq<Seq<char>>>) -> bool {
    forall|i: int|
        0 <= i < rows.len() ==> (#[trigger] rows[i]).len() > 0 && forall|j: int|
            0 <= j < rows[i].len() ==> !(#[trigger] rows[i][j]).contains('\t')
                && !rows[i][j].contains('\n')
}

proof fn lemma_row_is_a_line(row: Seq<Seq<char>>)
    requires
        forall|j: int| 0 <= j < row.len() ==> !(#[trigger] row[j]).contains('\n'),
    ensures
        !joined(row, '\t').contains('\n'),
    decreases row.len(),
{
    let text = joined(row, '\t');
    if text.contains('\n') {
        let k = choose|k: int| 0 <= k < text.len() && text[k] == '\n';
        if row.len() == 1 {
            assert(row[0][k] == '\n');
        } else if row.len() > 1 {
            let front = row.drop_last();
            assert forall|j: int| 0 <= j < front.len() implies !(#[trigger] front[j]).contains(
                '\n',
            ) by {
                assert(front[j] == row[j]);
            }
            lemma_row_is_a_line(front);
            let n = joined(front, '\t').len();
            if k < n {
                assert(joined(front, '\t')[k] == '\n');
            } else if k > n {
                assert(row[row.len() - 1][k - n - 1] == '\n');
            }
        }
    }
}

/// The rows of a sheet can be read back from its text, as many as there are, each from
/// its own line.
pub proof fn law_rows_can_be_read_back(rows: Seq<Seq<Seq<char>>>, i: int)
    requires
        is_plain_table(rows),
        0 <= i < rows.len(),
    ensures
        pieces(rows_text(rows), Cut::At('\n')).len() == rows.len() + 1,
        pieces(pieces(rows_text(rows), Cut::At('\n'))[i], Cut::At('\t')) == rows[i],
    decreases rows.len(),
{
    let front = rows.drop_last();
    let row = rows.last();
    let line = joined(row, '\t');
    let before = rows_text(front);
    let none = Seq::<char>::empty();
    assert(rows[rows.len() - 1] == row);
    lemma_row_is_a_line(row);
    law_joined_pieces(row, '\t');
    assert forall|k: int| 0 <= k < line.len() implies line[k] != '\n' by {}
    law_pieces(line, '\n', none, Cut::At('\n'));
    law_pieces(none, '\n', none, Cut::At('\n'));
    assert(line.push('\n') + none =~= line.push('\n'));
    assert(pieces(line.push('\n'), Cut::At('\n')) =~= seq![line, none]);
    if front.len() == 0 {
        assert(rows_text(rows) =~= line.push('\n'));
    } else {
        assert(is_plain_table(front)) by {
            assert forall|k: int| 0 <= k < front.len() implies (#[trigger] front[k]).len() > 0
                && forall|j: int|
                0 <= j < front[k].len() ==> !(#[trigger] front[k][j]).contains('\t')
                    && !front[k][j].contains('\n') by {
                assert(front[k] == rows[k]);
            }
        }
        let k = if i < front.len() {
            i
        } else {
            0
        };
        law_rows_can_be_read_back(front, k);
        let body = before.drop_last();
        assert(before.last() == '\n') by {
            assert(before == rows_text(front.drop_last()) + joined(front.last(), '\t').push('\n'));
        }
        assert(before =~= body.push('\n') + none);
        law_pieces(body, '\n', none, Cut::At('\n'));
        law_pieces(body, '\n', line.push('\n'), Cut::At('\n'));
        assert(rows_text(rows) =~= body.push('\n') + line.push('\n'));
        assert(pieces(before, Cut::At('\n')) == pieces(body, Cut::At('\n')) + seq![none]);
        assert(pieces(rows_text(rows), Cut::At('\n')) == pieces(body, Cut::At('\n')) + seq![
            line,
            none,
        ]);
        if i < front.len() {
            assert(pieces(before, Cut::At('\n'))[i] == pieces(body, Cut::At('\n'))[i]);
            assert(front[i] == rows[i]);
        }
    }
}

proof fn lemma_sheets_add(a: Seq<SheetModel>, b: Seq<SheetModel>)
    ensures
        sheets_text(a + b) == sheets_text(a) + sheets_text(b),
    decreases b.len(),
{
    let all = a + b;
    if b.len() == 0 {
        assert(all =~= a);
        assert(sheets_text(all) =~= sheets_text(a) + sheets_text(b));
    } else {
        lemma_sheets_add(a, b.drop_last());
        assert(all.drop_last() =~= a + b.drop_last());
        assert(sheets_text(all) =~= sheets_text(a) + sheets_text(b));
    }
}

/// The text of a workbook is that of its sheets, one after another and none left out:
/// a heading line, a line for each row, and an empty line. A sheet that could not be
/// read adds nothing.
pub proof fn law_sheets(
    a: Seq<SheetModel>,
    b: Seq<SheetModel>,
    name: Seq<char>,
    rows: Seq<Seq<Seq<char>>>,
)
    ensures
        sheets_text(a + b) == sheets_text(a) + sheets_text(b),
        sheets_text(seq![SheetModel { name, rows: Some(rows) }]) == "# Sheet: "@ + name + seq!['\n']
            + rows_text(rows) + seq!['\n'],
        sheets_text(seq![SheetModel { name, rows: None }]) == Seq::<char>::empty(),
        sheets_text(Seq::empty()) == Seq::<char>::empty(),
{
    lemma_sheets_add(a, b);
    let one = seq![SheetModel { name, rows: Some(rows) }];
    let other = seq![SheetModel { name, rows: None }];
    assert(one.drop_last() =~= Seq::<SheetModel>::empty());
    assert(other.drop_last() =~= Seq::<SheetModel>::empty());
    reveal_with_fuel(sheets_text, 2);
    assert(sheets_text(one) =~= "# Sheet: "@ + name + seq!['\n'] + rows_text(rows) + seq!['\n']);
    assert(sheets_text(other) =~= Seq::<char>::empty());
}

/// A sheet stands for the one with the same name and the same cells, in order.
pub proof fn law_sheet_cells(sheet: Sheet, i: int, j: int)
    ensures
        sheet@.name == sheet.name@,
        sheet@.rows is Some == sheet.rows is Some,
        sheet.rows is Some ==> {
            let rows = sheet.rows->0;
            &&& sheet@.rows->0.len() == rows@.len()
            &&& 0 <= i < rows@.len() ==> sheet@.rows->0[i].len() == rows@[i]@.len()
            &&& 0 <= i < rows@.len() && 0 <= j < rows@[i]@.len() ==> sheet@.rows->0[i][j]
                == rows@[i]@[j]@
        },
{
}

/// The texts of strings are those of each, in order.
pub proof fn law_texts(strings: Seq<String>, i: int)
    ensures
        texts(strings).len() == strings.len(),
        0 <= i < strings.len() ==> texts(strings)[i] == strings[i]@,
{
}

} // verus!
