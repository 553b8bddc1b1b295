use codekb_ingest::notebook::{extract_ipynb, notebook_code, Json};

fn extract(body: &str) -> Result<(String, &'static str), String> {
    extract_ipynb("dir/n.ipynb", Some(body))
}

fn tag(language: &str) -> &'static str {
    let body = format!(r#"{{"metadata":{{"kernelspec":{{"language":"{language}"}}}}}}"#);
    extract(&body).unwrap().1
}

#[test]
fn code_cells_are_concatenated() {
    let body = r##"{
        "cells": [
            {"cell_type": "markdown", "source": "# title"},
            {"cell_type": "code", "source": "x = 1"},
            {"cell_type": "code", "source": ["y = 2\n", 7, "z = 3"]},
            {"cell_type": "code"},
            {"cell_type": "code", "source": 5},
            {"source": "lost"},
            3
        ],
        "metadata": {"kernelspec": {"language": "Python"}}
    }"##;
    assert_eq!(
        extract(body),
        Ok(("x = 1\ny = 2\nz = 3\n".to_string(), "python"))
    );
}

#[test]
fn an_empty_source_adds_a_line_feed() {
    let body = r#"{"cells":[{"cell_type":"code","source":[]},{"cell_type":"code","source":""}]}"#;
    assert_eq!(extract(body), Ok(("\n\n".to_string(), "python")));
}

#[test]
fn kernel_languages_have_their_tags() {
    assert_eq!(tag("python"), "python");
    assert_eq!(tag("Python3"), "python");
    assert_eq!(tag("TypeScript"), "typescript");
    assert_eq!(tag("javascript"), "javascript");
    assert_eq!(tag("RUST"), "rust");
    assert_eq!(tag("go"), "go");
    assert_eq!(tag("SQL"), "sql");
}

#[test]
fn other_kernels_count_as_python() {
    assert_eq!(tag("julia"), "python");
    assert_eq!(tag(""), "python");
    assert_eq!(extract("{}"), Ok((String::new(), "python")));
    assert_eq!(extract("[1]"), Ok((String::new(), "python")));
    assert_eq!(
        extract(r#"{"metadata":{"kernelspec":{"language":4}}}"#),
        Ok((String::new(), "python"))
    );
    assert_eq!(
        extract(r#"{"metadata":["kernelspec"],"cells":{"cell_type":"code"}}"#),
        Ok((String::new(), "python"))
    );
}

#[test]
fn a_notebook_that_cannot_be_read_is_an_error() {
    assert_eq!(
        extract_ipynb("dir/n.ipynb", None),
        Err("read notebook dir/n.ipynb".to_string())
    );
}

#[test]
fn a_notebook_that_is_no_json_is_an_error() {
    let reason = Err("parse notebook dir/n.ipynb as JSON".to_string());
    assert_eq!(extract("{"), reason);
    assert_eq!(extract(""), reason);
    assert_eq!(extract("{} x"), reason);
}

#[test]
fn code_of_a_parsed_notebook() {
    let cell = Json::Object(vec![
        ("cell_type".to_string(), Json::Text("code".to_string())),
        ("source".to_string(), Json::Text("1 + 1".to_string())),
    ]);
    let notebook = Json::Object(vec![
        ("other".to_string(), Json::Null),
        ("cells".to_string(), Json::Array(vec![cell, Json::Bool(true), Json::Number])),
    ]);
    assert_eq!(notebook_code(&notebook), ("1 + 1\n".to_string(), "python"));
}

#[test]
fn members_texts_and_items_of_json() {
    let value = Json::Object(vec![
        ("a".to_string(), Json::Text("t".to_string())),
        ("b".to_string(), Json::Array(vec![Json::Null, Json::Number])),
    ]);
    assert_eq!(value.get("a").and_then(|v| v.as_str()), Some("t"));
    assert_eq!(value.get("b").and_then(|v| v.as_array()).map(|v| v.len()), Some(2));
    assert!(value.get("c").is_none());
    assert!(value.as_str().is_none());
    assert!(value.as_array().is_none());
    assert!(Json::Null.get("a").is_none());
}
