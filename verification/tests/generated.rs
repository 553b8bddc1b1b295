use codekb_ingest::generated::{
    is_generated_file, linguist_generated, linguist_generated_patterns,
    load_linguist_generated_globset, HEAD_BYTES,
};

fn patterns(body: &str) -> Vec<String> {
    linguist_generated_patterns(&vec![body.to_string()])
}

#[test]
fn each_marker_counts() {
    assert!(is_generated_file(b"// @generated by protoc"));
    assert!(is_generated_file(b"# DO NOT EDIT"));
    assert!(is_generated_file(b"/* AUTO-GENERATED */"));
    assert!(is_generated_file(b"// Code generated by mockgen."));
    assert!(is_generated_file(b"@generated"));
}

#[test]
fn markers_are_case_sensitive() {
    assert!(!is_generated_file(b"// @Generated"));
    assert!(!is_generated_file(b"do not edit"));
    assert!(!is_generated_file(b"fn main() {}"));
    assert!(!is_generated_file(b""));
    assert!(!is_generated_file(b"@generate"));
}

#[test]
fn markers_count_among_bytes_that_are_no_text() {
    assert!(is_generated_file(b"\xff\xfe@generated\xff"));
    assert!(!is_generated_file(b"@gene\xffrated"));
}

#[test]
fn only_the_first_bytes_are_scanned() {
    let mut inside = vec![b' '; HEAD_BYTES - 10];
    inside.extend_from_slice(b"@generated");
    assert_eq!(inside.len(), 4096);
    assert!(is_generated_file(&inside));
    let mut across = vec![b' '; HEAD_BYTES - 9];
    across.extend_from_slice(b"@generated");
    assert!(!is_generated_file(&across));
}

#[test]
fn flagged_patterns_are_read() {
    assert_eq!(patterns("*.pb.rs linguist-generated\n"), vec!["*.pb.rs"]);
    assert_eq!(patterns("a linguist-generated=true"), vec!["a"]);
    assert_eq!(patterns("a linguist-generated=set"), vec!["a"]);
    assert_eq!(
        patterns("  codegen/**\ttext linguist-generated linguist-vendored \r\nb x\nc linguist-generated"),
        vec!["codegen/**", "c"]
    );
}

#[test]
fn other_lines_flag_nothing() {
    assert!(patterns("").is_empty());
    assert!(patterns("\n  \n").is_empty());
    assert!(patterns("# *.rs linguist-generated").is_empty());
    assert!(patterns("  #*.rs linguist-generated").is_empty());
    assert!(patterns("*.rs linguist-generated=false").is_empty());
    assert!(patterns("*.rs -linguist-generated").is_empty());
    assert!(patterns("linguist-generated").is_empty());
    assert!(patterns("*.rs Linguist-generated").is_empty());
}

#[test]
fn patterns_of_several_files_come_in_order() {
    let bodies = vec![
        "a linguist-generated\nb linguist-generated".to_string(),
        "c linguist-generated".to_string(),
    ];
    assert_eq!(linguist_generated_patterns(&bodies), vec!["a", "b", "c"]);
}

#[test]
fn flagged_globs_match_relative_paths() {
    let bodies = vec!["*.pb.rs linguist-generated\ncodegen/** linguist-generated=true".to_string()];
    let set = load_linguist_generated_globset(&bodies);
    assert!(set.is_some());
    assert!(linguist_generated(&set, "a.pb.rs"));
    assert!(linguist_generated(&set, "deep/down/a.pb.rs"));
    assert!(linguist_generated(&set, "codegen/x/y.rs"));
    assert!(!linguist_generated(&set, "src/a.rs"));
    assert!(!linguist_generated(&set, "src/codegen/a.rs"));
}

#[test]
fn patterns_that_are_no_globs_are_left_out() {
    let set = load_linguist_generated_globset(&vec![
        "[z-a] linguist-generated\n*.gen.rs linguist-generated".to_string(),
    ]);
    assert!(linguist_generated(&set, "x.gen.rs"));
    assert!(!linguist_generated(&set, "[z-a]"));
    assert!(load_linguist_generated_globset(&vec!["[z-a] linguist-generated".to_string()]).is_none());
}

#[test]
fn without_flagged_patterns_there_is_no_set() {
    assert!(load_linguist_generated_globset(&vec![]).is_none());
    assert!(load_linguist_generated_globset(&vec!["*.rs text".to_string()]).is_none());
    assert!(!linguist_generated(&None, "a.rs"));
}
