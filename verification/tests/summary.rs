use codekb_ingest::ingest::{code_request, indexer_of, run_flags, Indexer};
use codekb_ingest::summary::{
    record_read_error, DistillSummary, IngestOptions, IngestSummary, LlmDistillOptions,
    LlmDistillSummary,
};
use std::path::PathBuf;

fn options() -> IngestOptions {
    IngestOptions {
        source_root: PathBuf::from("/repo"),
        kb_dir: PathBuf::from("/kb"),
        include_binary_docs: true,
        force_reparse: true,
        durable_writes: false,
        with_embeddings: true,
        background_quality: false,
        skip_linker: true,
        skip_cross_file_resolve: false,
        skip_code_refs: true,
        skip_code_graph: false,
        llm_distill: Some(LlmDistillOptions {
            endpoint: "http://host".to_string(),
            model: "m".to_string(),
            concurrency: 8,
        }),
    }
}

#[test]
fn options_are_cloned_whole() {
    let a = options();
    let b = a.clone();
    assert_eq!(b.source_root, PathBuf::from("/repo"));
    assert_eq!(b.kb_dir, PathBuf::from("/kb"));
    assert_eq!(format!("{a:?}"), format!("{b:?}"));
}

#[test]
fn flags_and_requests_follow_the_options() {
    let mut a = options();
    let flags = run_flags(&a);
    assert!(flags.skip_linker && !flags.skip_code_graph && flags.llm_distill);
    let request = code_request(&a);
    assert_eq!(request.source_table, "src");
    assert!(request.embed_bodies && request.force_reparse);
    assert!(request.embed_endpoint.is_none() && request.embed_bearer.is_none());
    assert!(request.parallelism.is_none() && request.chunk_size.is_none());
    assert_eq!(indexer_of(&a), Indexer::InProcessEmbedder);
    a.llm_distill = None;
    a.with_embeddings = false;
    assert!(!run_flags(&a).llm_distill);
    assert!(!code_request(&a).embed_bodies);
    assert_eq!(indexer_of(&a), Indexer::Plain);
}

#[test]
fn a_summary_begins_empty() {
    let s: IngestSummary<u8, u8, u8> = IngestSummary::default();
    assert_eq!(
        (s.files_seen, s.code_upserts, s.doc_upserts, s.md_doc_upserts),
        (0, 0, 0, 0)
    );
    assert_eq!((s.binary_upserts, s.skipped, s.read_errors, s.elapsed_ms), (0, 0, 0, 0));
    assert!(s.read_error_samples.is_empty());
    assert!(s.code.is_none() && s.docs.is_none() && s.docs_md.is_none() && s.links.is_none());
    assert!(s.distill.is_none() && s.llm_distill.is_none());
    assert_eq!(DistillSummary::default().symbols_written, 0);
    assert!(!DistillSummary::default().pagerank_converged);
    assert_eq!(LlmDistillSummary::default().total_prompt_tokens, 0);
}

#[test]
fn the_first_ten_read_errors_are_sampled() {
    let mut s: IngestSummary<u8, u8, u8> = IngestSummary::default();
    for i in 0..12 {
        record_read_error(&mut s, &format!("f{i}"), "gone");
    }
    assert_eq!(s.read_errors, 12);
    assert_eq!(s.read_error_samples.len(), 10);
    assert_eq!(s.read_error_samples[0], "f0: gone");
    assert_eq!(s.read_error_samples[9], "f9: gone");
    assert_eq!(s.skipped, 0);
}
