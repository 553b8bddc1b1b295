use codekb_ingest::classify::{classify, screened, Class};

#[test]
fn classify_extensions() {
    assert!(matches!(classify("a.rs"), Class::Code("rust")));
    assert!(matches!(classify("a.py"), Class::Code("python")));
    assert!(matches!(classify("a.tsx"), Class::Code("tsx")));
    assert!(matches!(classify("a.md"), Class::CodeAndDoc("markdown")));
    assert!(matches!(classify("a.txt"), Class::Text));
    assert!(matches!(classify("a.pdf"), Class::Pdf));
    assert!(matches!(classify("a.docx"), Class::Docx));
    assert!(matches!(classify("a.xlsx"), Class::Xlsx));
    assert!(matches!(classify("a.png"), Class::Skip));
    assert!(matches!(classify("a"), Class::Skip));
}

#[test]
fn every_extension_has_its_class() {
    for (path, lang) in [
        ("a.ts", "typescript"),
        ("a.js", "javascript"),
        ("a.mjs", "javascript"),
        ("a.cjs", "javascript"),
        ("a.go", "go"),
        ("a.sql", "sql"),
    ] {
        match classify(path) {
            Class::Code(tag) => assert_eq!(tag, lang),
            other => panic!("{path} is {other:?}"),
        }
    }
    assert!(matches!(classify("a.markdown"), Class::CodeAndDoc("markdown")));
    assert!(matches!(classify("a.ipynb"), Class::Notebook));
    assert!(matches!(classify("a.xlsm"), Class::Xlsx));
    for ext in [
        "graphql", "gql", "proto", "thrift", "txt", "rst", "tex", "org", "log", "toml", "yaml",
        "yml", "json", "ini", "cfg",
    ] {
        assert!(matches!(classify(&format!("a.{ext}")), Class::Text));
    }
}

#[test]
fn class_ignores_the_case_of_the_extension() {
    assert!(matches!(classify("A.RS"), Class::Code("rust")));
    assert!(matches!(classify("Notes.Md"), Class::CodeAndDoc("markdown")));
    assert!(matches!(classify("a.IPYNB"), Class::Notebook));
}

#[test]
fn class_goes_by_the_last_extension_of_the_file_name() {
    assert!(matches!(classify("a.tar.rs"), Class::Code("rust")));
    assert!(matches!(classify("src.d/a"), Class::Skip));
    assert!(matches!(classify("dir/.rs"), Class::Skip));
    assert!(matches!(classify("dir/..rs"), Class::Code("rust")));
    assert!(matches!(classify("dir/a.rs/"), Class::Code("rust")));
    assert!(matches!(classify("dir/a.rs/.."), Class::Skip));
    assert!(matches!(classify("a."), Class::Skip));
    assert!(matches!(classify(""), Class::Skip));
}

#[test]
fn only_code_and_notebooks_are_screened() {
    assert!(screened(&classify("a.rs")));
    assert!(screened(&classify("a.ipynb")));
    assert!(!screened(&classify("a.md")));
    assert!(!screened(&classify("a.txt")));
    assert!(!screened(&classify("a.pdf")));
}
