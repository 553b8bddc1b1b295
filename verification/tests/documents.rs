use codekb_ingest::documents::{
    docx_text, extract_docx, extract_pdf, extract_xlsx, xlsx_text, Block, ParagraphItem, RunItem,
    Sheet,
};
use docx_rs::{
    Docx, DocumentChild, Paragraph, ParagraphChild, Run, RunChild, Table, TableCell, TableRow,
};
use std::io::Cursor;

fn docx_bytes(docx: Docx) -> Vec<u8> {
    let mut bytes = Cursor::new(Vec::new());
    docx.build().pack(&mut bytes).unwrap();
    bytes.into_inner()
}

fn run_item(child: RunChild) -> RunItem {
    match child {
        RunChild::Text(t) => RunItem::Text(t.text),
        _ => RunItem::Other,
    }
}

fn paragraph_item(child: ParagraphChild) -> ParagraphItem {
    match child {
        ParagraphChild::Run(r) => ParagraphItem::Run(r.children.into_iter().map(run_item).collect()),
        _ => ParagraphItem::Other,
    }
}

fn block(child: DocumentChild) -> Block {
    match child {
        DocumentChild::Paragraph(p) => {
            Block::Paragraph(p.children.into_iter().map(paragraph_item).collect())
        }
        _ => Block::Other,
    }
}

fn decode(bytes: &[u8]) -> Result<Vec<Block>, String> {
    docx_rs::read_docx(bytes)
        .map(|d| d.document.children.into_iter().map(block).collect())
        .map_err(|e| e.to_string())
}

fn row(cells: &[&str]) -> Vec<String> {
    cells.iter().map(|c| c.to_string()).collect()
}

#[test]
fn the_paragraphs_of_a_docx_are_extracted() {
    let inner = Paragraph::new().add_run(Run::new().add_text("in a table"));
    let docx = Docx::new()
        .add_paragraph(
            Paragraph::new()
                .add_run(Run::new().add_text("Hello").add_tab().add_text(", "))
                .add_run(Run::new().add_text("world")),
        )
        .add_table(Table::new(vec![TableRow::new(vec![
            TableCell::new().add_paragraph(inner)
        ])]))
        .add_paragraph(Paragraph::new().add_run(Run::new().add_text("second")));
    assert_eq!(
        extract_docx(Some(decode(&docx_bytes(docx)))),
        Ok("Hello, world\nsecond\n".to_string())
    );
}

#[test]
fn bytes_that_are_no_docx_are_an_error() {
    assert_eq!(
        extract_docx(Some(decode(b"no archive"))),
        Err("docx-rs read: Failed to read from zip.".to_string())
    );
}

#[test]
fn text_of_document_elements() {
    let blocks = vec![
        Block::Paragraph(vec![
            ParagraphItem::Run(vec![
                RunItem::Text("a".to_string()),
                RunItem::Other,
                RunItem::Text("b".to_string()),
            ]),
            ParagraphItem::Other,
            ParagraphItem::Run(vec![RunItem::Text("c".to_string())]),
        ]),
        Block::Other,
        Block::Paragraph(vec![]),
    ];
    assert_eq!(docx_text(&blocks), "abc\n\n");
    assert_eq!(docx_text(&vec![]), "");
}

#[test]
fn sheets_are_written_out() {
    let sheets = vec![
        Sheet {
            name: "One".to_string(),
            rows: Some(vec![row(&["a", "b", ""]), row(&["1"]), row(&[])]),
        },
        Sheet {
            name: "Broken".to_string(),
            rows: None,
        },
        Sheet {
            name: "Empty".to_string(),
            rows: Some(vec![]),
        },
    ];
    let text = "# Sheet: One\na\tb\t\n1\n\n\n# Sheet: Empty\n\n";
    assert_eq!(xlsx_text(&sheets), text);
    assert_eq!(extract_xlsx(Some(Ok(sheets))), Ok(text.to_string()));
}

#[test]
fn decoder_errors_are_named() {
    assert_eq!(
        extract_xlsx(Some(Err("bad zip".to_string()))),
        Err("calamine open: bad zip".to_string())
    );
    assert_eq!(
        extract_pdf(Some(Err("bad xref".to_string()))),
        Err("pdf-extract: bad xref".to_string())
    );
}

#[test]
fn pdf_text_is_kept() {
    assert_eq!(extract_pdf(Some(Ok("page".to_string()))), Ok("page".to_string()));
}

#[test]
fn without_native_decoders_documents_are_refused() {
    let refusal = |kind: &str| {
        format!("{kind} ingestion not enabled — rebuild with `--features native-binary-docs` (or use Docling)")
    };
    assert_eq!(extract_pdf(None), Err(refusal("PDF")));
    assert_eq!(extract_docx(None), Err(refusal("DOCX")));
    assert_eq!(extract_xlsx(None), Err(refusal("XLSX")));
}
