//! The text of PDF, word-processor and spreadsheet documents.

use crate::text::{join, joined, texts};
use vstd::prelude::*;

verus! {

/// An element of a text run in a word-processor document.
#[derive(Debug)]
pub enum RunItem {
    Text(String),
    Other,
}

/// An element of a paragraph.
#[derive(Debug)]
pub enum ParagraphItem {
    Run(Vec<RunItem>),
    Other,
}

/// An element of a document's body.
#[derive(Debug)]
pub enum Block {
    Paragraph(Vec<ParagraphItem>),
    Other,
}

/// A `RunItem` over sequences.
pub enum RunItemModel {
    Text(Seq<char>),
    Other,
}

/// A `ParagraphItem` over sequences.
pub enum ParagraphItemModel {
    Run(Seq<RunItemModel>),
    Other,
}

/// A `Block` over sequences.
pub enum BlockModel {
    Paragraph(Seq<ParagraphItemModel>),
    Other,
}

impl View for RunItem {
    type V = RunItemModel;

    open spec fn view(&self) -> RunItemModel {
        match self {
            RunItem::Text(s) => RunItemModel::Text(s@),
            RunItem::Other => RunItemModel::Other,
        }
    }
}

impl View for ParagraphItem {
    type V = ParagraphItemModel;

    open spec fn view(&self) -> ParagraphItemModel {
        match self {
            ParagraphItem::Run(items) => ParagraphItemModel::Run(
                items@.map_values(|i: RunItem| i@),
            ),
            ParagraphItem::Other => ParagraphItemModel::Other,
        }
    }
}

impl View for Block {
    type V = BlockModel;

    open spec fn view(&self) -> BlockModel {
        match self {
            Block::Paragraph(items) => BlockModel::Paragraph(
                items@.map_values(|i: ParagraphItem| i@),
            ),
            Block::Other => BlockModel::Other,
        }
    }
}

/// The texts of a run, one after another.
pub open spec fn run_text(items: Seq<RunItemModel>) -> Seq<char>
    decreases items.len(),
{
    if items.len() == 0 {
        Seq::empty()
    } else {
        match items.last() {
            RunItemModel::Text(s) => run_text(items.drop_last()) + s,
            RunItemModel::Other => run_text(items.drop_last()),
        }
    }
}

/// The texts of the runs of a paragraph, one after another.
pub open spec fn paragraph_text(items: Seq<ParagraphItemModel>) -> Seq<char>
    decreases items.len(),
{
    if items.len() == 0 {
        Seq::empty()
    } else {
        match items.last() {
            ParagraphItemModel::Run(run) => paragraph_text(items.drop_last()) + run_text(run),
            ParagraphItemModel::Other => paragraph_text(items.drop_last()),
        }
    }
}

/// The text of a document: of each paragraph of its body, with a line feed after
/// each.
pub open spec fn blocks_text(blocks: Seq<BlockModel>) -> Seq<char>
    decreases blocks.len(),
{
    if blocks.len() == 0 {
        Seq::empty()
    } else {
        match blocks.last() {
            BlockModel::Paragraph(items) => blocks_text(blocks.drop_last()) + paragraph_text(
                items,
            ).push('\n'),
            BlockModel::Other => blocks_text(blocks.drop_last()),
        }
    }
}

fn append_run(out: &mut String, items: &Vec<RunItem>)
    ensures
        final(out)@ == old(out)@ + run_text(items@.map_values(|i: RunItem| i@)),
{
    let ghost all = items@.map_values(|i: RunItem| i@);
    let ghost before = out@;
    let mut i: usize = 0;
    assert(out@ =~= before + run_text(all.take(0)));
    while i < items.len()
        invariant
            i <= items@.len(),
            all == items@.map_values(|i: RunItem| i@),
            out@ == before + run_text(all.take(i as int)),
        decreases items.len() - i,
    {
        assert(all.take(i + 1).drop_last() =~= all.take(i as int));
        match &items[i] {
            RunItem::Text(s) => {
                out.append(s.as_str());
            },
            RunItem::Other => {},
        }
        assert(out@ =~= before + run_text(all.take(i + 1)));
        i = i + 1;
    }
    assert(all.take(all.len() as int) =~= all);
}

fn append_paragraph(out: &mut String, items: &Vec<ParagraphItem>)
    ensures
        final(out)@ == old(out)@ + paragraph_text(items@.map_values(|i: ParagraphItem| i@)),
{
    let ghost all = items@.map_values(|i: ParagraphItem| i@);
    let ghost before = out@;
    let mut i: usize = 0;
    assert(out@ =~= before + paragraph_text(all.take(0)));
    while i < items.len()
        invariant
            i <= items@.len(),
            all == items@.map_values(|i: ParagraphItem| i@),
            out@ == before + paragraph_text(all.take(i as int)),
        decreases items.len() - i,
    {
        assert(all.take(i + 1).drop_last() =~= all.take(i as int));
        match &items[i] {
            ParagraphItem::Run(run) => append_run(out, run),
            ParagraphItem::Other => {},
        }
        assert(out@ =~= before + paragraph_text(all.take(i + 1)));
        i = i + 1;
    }
    assert(all.take(all.len() as int) =~= all);
}

/// The text of a word-processor document from the elements of its body.
pub fn docx_text(blocks: &Vec<Block>) -> (r: String)
    ensures
        r@ == blocks_text(blocks@.map_values(|b: Block| b@)),
{
    let ghost all = blocks@.map_values(|b: Block| b@);
    let mut out = String::new();
    let mut i: usize = 0;
    while i < blocks.len()
        invariant
            i <= blocks@.len(),
            all == blocks@.map_values(|b: Block| b@),
            out@ == blocks_text(all.take(i as int)),
        decreases blocks.len() - i,
    {
        assert(all.take(i + 1).drop_last() =~= all.take(i as int));
        let ghost before = out@;
        match &blocks[i] {
            Block::Paragraph(items) => {
                append_paragraph(&mut out, items);
                out.push('\n');
            },
            Block::Other => {},
        }
        assert(out@ =~= blocks_text(all.take(i + 1)));
        i = i + 1;
    }
    assert(all.take(all.len() as int) =~= all);
    out
}

/// Extracts the text of a word-processor document. `decoded` is what the document
/// decoder made of the file's bytes, the elements of its body or the message of its
/// error; nothing where no native decoder is part of the build.
pub fn extract_docx(decoded: Option<Result<Vec<Block>, String>>) -> (r: Result<String, String>)
    ensures
        match decoded {
            None => r is Err && r->Err_0@
                == "DOCX ingestion not enabled — rebuild with `--features native-binary-docs` (or use Docling)"@,
            Some(Ok(blocks)) => r is Ok && r->Ok_0@ == blocks_text(
                blocks@.map_values(|b: Block| b@),
            ),
            Some(Err(message)) => r is Err && r->Err_0@ == "docx-rs read: "@ + message@,
        },
{
    match decoded {
        None => Err(
            "DOCX ingestion not enabled — rebuild with `--features native-binary-docs` (or use Docling)".to_owned(),
        ),
        Some(Ok(blocks)) => Ok(docx_text(&blocks)),
        Some(Err(message)) => Err("docx-rs read: ".to_owned().concat(message.as_str())),
    }
}

/// A sheet of a workbook: its name and, where it could be read, its rows of cells
/// as text.
#[derive(Debug)]
pub struct Sheet {
    pub name: String,
    pub rows: Option<Vec<Vec<String>>>,
}

/// A `Sheet` over sequences.
pub struct SheetModel {
    pub name: Seq<char>,
    pub rows: Option<Seq<Seq<Seq<char>>>>,
}

impl View for Sheet {
    type V = SheetModel;

    open spec fn view(&self) -> SheetModel {
        SheetModel {
            name: self.name@,
            rows: match self.rows {
                Some(rows) => Some(rows@.map_values(|row: Vec<String>| texts(row@))),
                None => None,
            },
        }
    }
}

/// The rows of a sheet, one to a line, with a tab between the cells.
pub open spec fn rows_text(rows: Seq<Seq<Seq<char>>>) -> Seq<char>
    decreases rows.len(),
{
    if rows.len() == 0 {
        Seq::empty()
    } else {
        rows_text(rows.drop_last()) + joined(rows.last(), '\t').push('\n')
    }
}

/// The text of a sheet: a heading with its name, its rows and an empty line. A
/// sheet that could not be read has none.
pub open spec fn sheet_text(sheet: SheetModel) -> Seq<char> {
    match sheet.rows {
        Some(rows) => "# Sheet: "@ + sheet.name.push('\n') + rows_text(rows).push('\n'),
        None => Seq::empty(),
    }
}

/// The text of a workbook: of its sheets, in order.
pub open spec fn sheets_text(sheets: Seq<SheetModel>) -> Seq<char>
    decreases sheets.len(),
{
    if sheets.len() == 0 {
        Seq::empty()
    } else {
        sheets_text(sheets.drop_last()) + sheet_text(sheets.last())
    }
}

fn append_sheet(out: &mut String, sheet: &Sheet)
    ensures
        final(out)@ == old(out)@ + sheet_text(sheet@),
{
    let ghost before = out@;
    match &sheet.rows {
        Some(rows) => {
            out.append("# Sheet: ");
            out.append(sheet.name.as_str());
            out.push('\n');
            let ghost head = out@;
            let ghost all = rows@.map_values(|row: Vec<String>| texts(row@));
            let mut i: usize = 0;
            assert(out@ =~= head + rows_text(all.take(0)));
            while i < rows.len()
                invariant
                    i <= rows@.len(),
                    all == rows@.map_values(|row: Vec<String>| texts(row@)),
                    out@ == head + rows_text(all.take(i as int)),
                decreases rows.len() - i,
            {
                assert(all.take(i + 1).drop_last() =~= all.take(i as int));
                let line = join(&rows[i], '\t');
                out.append(line.as_str());
                out.push('\n');
                assert(out@ =~= head + rows_text(all.take(i + 1)));
                i = i + 1;
            }
            assert(all.take(all.len() as int) =~= all);
            out.push('\n');
            assert(out@ =~= before + sheet_text(sheet@));
        },
        None => {
            assert(out@ =~= before + sheet_text(sheet@));
        },
    }
}

/// The text of a workbook from its sheets.
pub fn xlsx_text(sheets: &Vec<Sheet>) -> (r: String)
    ensures
        r@ == sheets_text(sheets@.map_values(|s: Sheet| s@)),
{
    let ghost all = sheets@.map_values(|s: Sheet| s@);
    let mut out = String::new();
    let mut i: usize = 0;
    while i < sheets.len()
        invariant
            i <= sheets@.len(),
            all == sheets@.map_values(|s: Sheet| s@),
            out@ == sheets_text(all.take(i as int)),
        decreases sheets.len() - i,
    {
        assert(all.take(i + 1).drop_last() =~= all.take(i as int));
        append_sheet(&mut out, &sheets[i]);
        i = i + 1;
    }
    assert(all.take(all.len() as int) =~= all);
    out
}

/// Extracts the text of a spreadsheet. `decoded` is what the workbook decoder
/// made of the file, its sheets or the message of its error; nothing where no
/// native decoder is part of the build.
pub fn extract_xlsx(decoded: Option<Result<Vec<Sheet>, String>>) -> (r: Result<String, String>)
    ensures
        match decoded {
            None => r is Err && r->Err_0@
                == "XLSX ingestion not enabled — rebuild with `--features native-binary-docs` (or use Docling)"@,
            Some(Ok(sheets)) => r is Ok && r->Ok_0@ == sheets_text(
                sheets@.map_values(|s: Sheet| s@),
            ),
            Some(Err(message)) => r is Err && r->Err_0@ == "calamine open: "@ + message@,
        },
{
    match decoded {
        None => Err(
            "XLSX ingestion not enabled — rebuild with `--features native-binary-docs` (or use Docling)".to_owned(),
        ),
        Some(Ok(sheets)) => Ok(xlsx_text(&sheets)),
        Some(Err(message)) => Err("calamine open: ".to_owned().concat(message.as_str())),
    }
}

/// Extracts the text of a PDF document. `decoded` is what the PDF decoder made of
/// the file, its text or the message of its error; nothing where no native
/// decoder is part of the build.
pub fn extract_pdf(decoded: Option<Result<String, String>>) -> (r: Result<String, String>)
    ensures
        match decoded {
            None => r is Err && r->Err_0@
                == "PDF ingestion not enabled — rebuild with `--features native-binary-docs` (or use Docling)"@,
            Some(Ok(text)) => r is Ok && r->Ok_0@ == text@,
            Some(Err(message)) => r is Err && r->Err_0@ == "pdf-extract: "@ + message@,
        },
{
    match decoded {
        None => Err(
            "PDF ingestion not enabled — rebuild with `--features native-binary-docs` (or use Docling)".to_owned(),
        ),
        Some(Ok(text)) => Ok(text),
        Some(Err(message)) => Err("pdf-extract: ".to_owned().concat(message.as_str())),
    }
}

} // verus!
