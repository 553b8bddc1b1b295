//! What an ingest run is asked for and what it reports.

use crate::text::texts;
use std::path::PathBuf;
use vstd::prelude::*;

verus! {

/// `std::path::PathBuf`, a path that is carried through.
#[verifier::external_type_specification]
#[verifier::external_body]
pub struct ExPathBuf(std::path::PathBuf);

/// `PathBuf::clone`: a duplicate of the path.
pub assume_specification[ <std::path::PathBuf as Clone>::clone ](
    path: &std::path::PathBuf,
) -> (r: std::path::PathBuf)
    ensures
        r == *path,
;

/// How many read errors are reported with their path and reason.
pub const MAX_ERROR_SAMPLES: usize = 10;

/// Where and how symbols are summarised by a language model.
#[derive(Debug)]
pub struct LlmDistillOptions {
    pub endpoint: String,
    pub model: String,
    pub concurrency: usize,
}

/// What an ingest run is asked for.
#[derive(Debug)]
pub struct IngestOptions {
    pub source_root: PathBuf,
    /// The directory of the knowledge base, which also holds the checkpoint.
    pub kb_dir: PathBuf,
    /// Whether PDF, word-processor and spreadsheet documents are indexed.
    pub include_binary_docs: bool,
    /// Whether every file is parsed again, whatever its content hash.
    pub force_reparse: bool,
    /// Whether the knowledge base is opened with durable writes.
    pub durable_writes: bool,
    /// Whether the bodies of symbols are embedded.
    pub with_embeddings: bool,
    /// Whether the embedding pass is left to a detached process.
    pub background_quality: bool,
    /// Whether the text-to-symbol linker is left out.
    pub skip_linker: bool,
    /// Reserved: the engine has no such option yet.
    pub skip_cross_file_resolve: bool,
    /// Reserved: the engine has no such option yet.
    pub skip_code_refs: bool,
    /// Whether the code graph is left out. Sources are stored all the same.
    pub skip_code_graph: bool,
    /// Whether and how symbols are summarised by a language model after the
    /// heuristic pass.
    pub llm_distill: Option<LlmDistillOptions>,
}

/// Whether two sets of options ask for the same model in the same way.
pub open spec fn same_llm_options(a: LlmDistillOptions, b: LlmDistillOptions) -> bool {
    a.endpoint@ == b.endpoint@ && a.model@ == b.model@ && a.concurrency == b.concurrency
}

impl Clone for LlmDistillOptions {
    fn clone(&self) -> (r: Self)
        ensures
            same_llm_options(r, *self),
    {
        LlmDistillOptions {
            endpoint: self.endpoint.clone(),
            model: self.model.clone(),
            concurrency: self.concurrency,
        }
    }
}

impl Clone for IngestOptions {
    fn clone(&self) -> (r: Self)
        ensures
            r == (IngestOptions { llm_distill: r.llm_distill, ..*self }),
            match (r.llm_distill, self.llm_distill) {
                (Some(a), Some(b)) => same_llm_options(a, b),
                (None, None) => true,
                _ => false,
            },
    {
        IngestOptions {
            source_root: self.source_root.clone(),
            kb_dir: self.kb_dir.clone(),
            include_binary_docs: self.include_binary_docs,
            force_reparse: self.force_reparse,
            durable_writes: self.durable_writes,
            with_embeddings: self.with_embeddings,
            background_quality: self.background_quality,
            skip_linker: self.skip_linker,
            skip_cross_file_resolve: self.skip_cross_file_resolve,
            skip_code_refs: self.skip_code_refs,
            skip_code_graph: self.skip_code_graph,
            llm_distill: match &self.llm_distill {
                Some(options) => Some(options.clone()),
                None => None,
            },
        }
    }
}

/// What an ingest run reports. `C`, `D` and `L` are the engine's statistics of a
/// code-index pass, of a document pass and of the linker.
#[derive(Debug)]
pub struct IngestSummary<C, D, L> {
    pub files_seen: u64,
    pub code_upserts: u64,
    pub doc_upserts: u64,
    pub md_doc_upserts: u64,
    pub binary_upserts: u64,
    pub skipped: u64,
    pub read_errors: u64,
    /// The first read errors, each with its path and reason.
    pub read_error_samples: Vec<String>,
    pub elapsed_ms: u128,
    pub code: Option<C>,
    pub docs: Option<D>,
    /// Of the pass over Markdown documents, cut at their headings.
    pub docs_md: Option<D>,
    pub links: Option<L>,
    pub distill: Option<DistillSummary>,
    pub llm_distill: Option<LlmDistillSummary>,
}

/// What the heuristic distillation pass did.
#[derive(Debug, Clone, Copy)]
pub struct DistillSummary {
    pub symbols_written: usize,
    pub symbols_unchanged: usize,
    pub files_written: usize,
    pub pagerank_iters: u32,
    pub pagerank_converged: bool,
}

/// What the language-model distillation pass did.
#[derive(Debug, Clone, Copy)]
pub struct LlmDistillSummary {
    pub written: usize,
    pub unchanged: usize,
    pub failed: usize,
    pub total_prompt_tokens: u64,
    pub total_completion_tokens: u64,
}

impl<C, D, L> Default for IngestSummary<C, D, L> {
    /// The summary of a run that has done nothing yet.
    fn default() -> (r: Self)
        ensures
            r.files_seen == 0,
            r.code_upserts == 0,
            r.doc_upserts == 0,
            r.md_doc_upserts == 0,
            r.binary_upserts == 0,
            r.skipped == 0,
            r.read_errors == 0,
            r.read_error_samples@.len() == 0,
            r.elapsed_ms == 0,
            r.code is None,
            r.docs is None,
            r.docs_md is None,
            r.links is None,
            r.distill is None,
            r.llm_distill is None,
    {
        IngestSummary {
            files_seen: 0,
            code_upserts: 0,
            doc_upserts: 0,
            md_doc_upserts: 0,
            binary_upserts: 0,
            skipped: 0,
            read_errors: 0,
            read_error_samples: Vec::new(),
            elapsed_ms: 0,
            code: None,
            docs: None,
            docs_md: None,
            links: None,
            distill: None,
            llm_distill: None,
        }
    }
}

impl Default for DistillSummary {
    fn default() -> (r: Self)
        ensures
            r == (DistillSummary {
                symbols_written: 0,
                symbols_unchanged: 0,
                files_written: 0,
                pagerank_iters: 0,
                pagerank_converged: false,
            }),
    {
        DistillSummary {
            symbols_written: 0,
            symbols_unchanged: 0,
            files_written: 0,
            pagerank_iters: 0,
            pagerank_converged: false,
        }
    }
}

impl Default for LlmDistillSummary {
    fn default() -> (r: Self)
        ensures
            r == (LlmDistillSummary {
                written: 0,
                unchanged: 0,
                failed: 0,
                total_prompt_tokens: 0,
                total_completion_tokens: 0,
            }),
    {
        LlmDistillSummary {
            written: 0,
            unchanged: 0,
            failed: 0,
            total_prompt_tokens: 0,
            total_completion_tokens: 0,
        }
    }
}

/// The samples after one more read error: it is kept while there are fewer than
/// ten.
pub open spec fn sampled(samples: Seq<Seq<char>>, path: Seq<char>, reason: Seq<char>) -> Seq<
    Seq<char>,
> {
    if samples.len() < MAX_ERROR_SAMPLES {
        samples.push(path + ": "@ + reason)
    } else {
        samples
    }
}

/// Counts a file that could not be read, and keeps its path and the reason among
/// the first samples.
pub fn record_read_error<C, D, L>(
    summary: &mut IngestSummary<C, D, L>,
    path: &str,
    reason: &str,
)
    requires
        old(summary).read_errors < u64::MAX,
    ensures
        texts(final(summary).read_error_samples@) == sampled(
            texts(old(summary).read_error_samples@),
            path@,
            reason@,
        ),
        *final(summary) == (IngestSummary {
            read_errors: (old(summary).read_errors + 1) as u64,
            read_error_samples: final(summary).read_error_samples,
            ..*old(summary)
        }),
{
    summary.read_errors = summary.read_errors + 1;
    if summary.read_error_samples.len() < MAX_ERROR_SAMPLES {
        let line: String = path.to_owned().concat(": ").concat(reason);
        let ghost before = summary.read_error_samples@;
        summary.read_error_samples.push(line);
        assert(texts(summary.read_error_samples@) =~= texts(before).push(line@));
    }
}

} // verus!
