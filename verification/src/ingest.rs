//! The phases of an ingest run: which steps it takes, in which order, and what
//! becomes of it when one of them fails.

use crate::store::{count_of, name_of_table, row_count, table_name, CountCell, Table};
use crate::summary::{DistillSummary, IngestOptions, IngestSummary, LlmDistillSummary};
use vstd::prelude::*;

verus! {

/// The phases of a run, as its checkpoint names them, in order.
#[derive(Debug, Clone, Copy, PartialEq, Eq, Structural)]
pub enum Phase {
    Walk,
    CodeIndex,
    GraphRag,
    Distill,
}

/// A step of a run.
#[derive(Debug, Clone, Copy, PartialEq, Eq, Structural)]
pub enum Step {
    /// Create the tables that do not exist yet.
    EnsureTables,
    /// Read the checkpoint of an interrupted run.
    ReadCheckpoint,
    /// Count the rows of a table.
    CountRows(Table),
    /// Write a checkpoint for the walk.
    BeginCheckpoint,
    /// Begin the transaction around the walk.
    BeginTransaction,
    /// Walk the source tree and store its files.
    Walk,
    /// Commit the walk.
    Commit,
    /// Roll the walk back.
    Rollback,
    /// Move the checkpoint on to a phase.
    AdvanceCheckpoint(Phase),
    /// Put the engine in bulk-load mode.
    EnableBulkLoad,
    /// Put off the validation of foreign keys.
    DeferForeignKeys,
    /// Run the code-graph indexer over the sources.
    IndexCode,
    /// Leave bulk-load mode.
    DisableBulkLoad,
    /// Validate foreign keys as usual.
    ResetForeignKeys,
    /// Project the documents of a table.
    IngestDocs(Table),
    /// Link the text of documents to the symbols that it mentions.
    LinkMentions,
    /// Write the cards of symbols.
    BuildSymbolCards,
    /// Write the cards of files.
    BuildRepomapCards,
    /// Summarise symbols by a language model.
    DistillWithModel,
    /// Remove the checkpoint.
    ClearCheckpoint,
}

/// What the distillation passes report.
#[derive(Debug, Clone, Copy)]
pub struct DistillStats {
    pub symbols_scanned: usize,
    pub symbols_written: usize,
    pub symbols_unchanged: usize,
    pub files_written: usize,
    pub pagerank_iters: u32,
    pub pagerank_converged: bool,
}

/// The report of a pass that did nothing.
pub open spec fn no_distill() -> DistillStats {
    DistillStats {
        symbols_scanned: 0,
        symbols_written: 0,
        symbols_unchanged: 0,
        files_written: 0,
        pagerank_iters: 0,
        pagerank_converged: false,
    }
}

impl Default for DistillStats {
    fn default() -> (r: Self)
        ensures
            r == no_distill(),
    {
        DistillStats {
            symbols_scanned: 0,
            symbols_written: 0,
            symbols_unchanged: 0,
            files_written: 0,
            pagerank_iters: 0,
            pagerank_converged: false,
        }
    }
}

/// How the step at hand ended.
#[derive(Debug)]
pub enum Outcome<C, D, L> {
    /// It succeeded, with nothing to report.
    Done,
    /// It failed.
    Failed,
    /// The checkpoint was read: the phase at which an earlier run was interrupted.
    Checkpoint(Option<Phase>),
    /// The rows were counted: the first cell of the answer, if there is one.
    Rows(Option<CountCell>),
    /// The code was indexed.
    Indexed(C),
    /// Documents were projected.
    Ingested(D),
    /// Mentions were linked.
    Linked(L),
    /// Cards were written.
    Cards(DistillStats),
    /// Symbols were summarised.
    Distilled(LlmDistillSummary),
}

/// What a run is to do next.
#[derive(Debug, Clone, Copy, PartialEq, Eq, Structural)]
pub enum Progress {
    /// Take this step.
    Do(Step),
    /// Nothing: the run is complete.
    Done,
    /// Nothing: the run has failed.
    Failed,
}

/// The options that decide which steps a run takes.
#[derive(Debug, Clone, Copy)]
pub struct RunFlags {
    pub skip_linker: bool,
    pub skip_code_graph: bool,
    pub llm_distill: bool,
}

/// How far a run has come.
#[derive(Debug, Clone, Copy, PartialEq, Eq, Structural)]
pub enum Stage {
    /// It prepares the tables and reads the checkpoint.
    Opening,
    /// It fills the tables, or counts what is in them.
    Sources,
    /// It indexes what is in the tables.
    Indexing,
    /// It is complete.
    Finished,
    /// It has failed.
    Aborted,
}

/// Whether an earlier run had finished its walk: it was interrupted in the code
/// index or later.
pub open spec fn is_walk_finished(resume: Option<Phase>) -> bool {
    resume is Some && resume->0 != Phase::Walk
}

/// The steps that leave the tables filled. A quality child trusts the rows that
/// its parent stored, and a resumed run those of an earlier walk; any other run
/// walks the source tree in a transaction.
pub open spec fn sources_plan(quality_child: bool, resume: Option<Phase>) -> Seq<Step> {
    if quality_child {
        seq![Step::CountRows(Table::Src), Step::CountRows(Table::Docs)]
    } else if is_walk_finished(resume) {
        seq![
            Step::CountRows(Table::Src),
            Step::CountRows(Table::Docs),
            Step::CountRows(Table::DocsMd),
        ]
    } else {
        seq![Step::BeginCheckpoint, Step::BeginTransaction, Step::Walk, Step::Commit]
    }
}

/// The place of a phase among the phases, with that of no phase before them all.
pub open spec fn rank(phase: Option<Phase>) -> int {
    match phase {
        None => 0,
        Some(Phase::Walk) => 1,
        Some(Phase::CodeIndex) => 2,
        Some(Phase::GraphRag) => 3,
        Some(Phase::Distill) => 4,
    }
}

/// Whether a phase is still to be taken: an earlier run that this one resumes was
/// interrupted in it or before it.
pub open spec fn is_due(resume: Option<Phase>, phase: Phase) -> bool {
    rank(resume) <= rank(Some(phase))
}

/// What a run resumes. A quality child resumes nothing: the checkpoint is its
/// parent's.
pub open spec fn taken_up(quality_child: bool, phase: Option<Phase>) -> Option<Phase> {
    if quality_child {
        None
    } else {
        phase
    }
}

/// The steps of the code index, which runs where sources are to be indexed and the
/// code graph is not skipped.
pub open spec fn code_plan(flags: RunFlags, quality_child: bool, sources: bool) -> Seq<Step> {
    if !sources || flags.skip_code_graph {
        Seq::empty()
    } else {
        only(!quality_child, Step::AdvanceCheckpoint(Phase::CodeIndex)) + seq![
            Step::EnableBulkLoad,
            Step::DeferForeignKeys,
            Step::IndexCode,
        ]
    }
}

/// The steps of the document passes, which run where documents are to be projected.
pub open spec fn docs_plan(
    flags: RunFlags,
    quality_child: bool,
    row_docs: bool,
    md_docs: bool,
) -> Seq<Step> {
    if !row_docs && !md_docs {
        Seq::empty()
    } else {
        only(!quality_child, Step::AdvanceCheckpoint(Phase::GraphRag)) + only(
            row_docs,
            Step::IngestDocs(Table::Docs),
        ) + only(md_docs, Step::IngestDocs(Table::DocsMd)) + only(
            !flags.skip_linker,
            Step::LinkMentions,
        )
    }
}

/// The steps of the distillation, which runs where anything is stored. A quality
/// child leaves it to its parent.
pub open spec fn distill_plan(flags: RunFlags, quality_child: bool, stored: bool) -> Seq<Step> {
    if quality_child || !stored {
        Seq::empty()
    } else {
        seq![
            Step::AdvanceCheckpoint(Phase::Distill),
            Step::BuildSymbolCards,
            Step::BuildRepomapCards,
        ] + only(flags.llm_distill, Step::DistillWithModel)
    }
}

/// A step, where it is taken.
pub open spec fn only(taken: bool, step: Step) -> Seq<Step> {
    if taken {
        seq![step]
    } else {
        Seq::empty()
    }
}

/// The steps that follow once the tables are filled. Phases that the resumed run
/// had completed are left out.
pub open spec fn index_plan(facts: RunFacts, resume: Option<Phase>) -> Seq<Step> {
    let child = facts.quality_child;
    let docs = is_due(resume, Phase::GraphRag);
    code_plan(facts.flags, child, facts.sources && is_due(resume, Phase::CodeIndex)) + docs_plan(
        facts.flags,
        child,
        facts.row_docs && docs,
        facts.md_docs && docs,
    ) + distill_plan(facts.flags, child, facts.sources || facts.row_docs || facts.md_docs) + only(
        !child,
        Step::ClearCheckpoint,
    )
}

/// The steps that undo what was relaxed for the code index.
pub open spec fn restore_plan(bulk_loading: bool, keys_deferred: bool) -> Seq<Step> {
    only(bulk_loading, Step::DisableBulkLoad) + only(keys_deferred, Step::ResetForeignKeys)
}

/// Whether a run fails with a step. It goes on where the other steps fail.
pub open spec fn is_fatal(step: Step) -> bool {
    match step {
        Step::EnsureTables
        | Step::ReadCheckpoint
        | Step::BeginCheckpoint
        | Step::BeginTransaction
        | Step::Walk
        | Step::Commit
        | Step::AdvanceCheckpoint(_) => true,
        _ => false,
    }
}

/// Whether the transaction is rolled back where a step fails.
pub open spec fn is_rolled_back(step: Step) -> bool {
    step == Step::Walk || step == Step::Commit
}

/// Where a run stands.
pub struct RunState {
    pub stage: Stage,
    /// The step at hand.
    pub step: Step,
    /// The steps after it.
    pub todo: Seq<Step>,
    /// The phase in which the run that this one resumes was interrupted.
    pub resume: Option<Phase>,
    /// The phase that the checkpoint of this run names.
    pub checkpoint: Option<Phase>,
    /// Whether bulk-load mode was turned on and not off again.
    pub bulk_loading: bool,
    /// Whether foreign keys were deferred and not reset.
    pub keys_deferred: bool,
}

/// What decides over the steps of a run.
pub struct RunFacts {
    pub flags: RunFlags,
    pub quality_child: bool,
    /// Whether sources are stored.
    pub sources: bool,
    /// Whether documents are stored that are retrieved whole.
    pub row_docs: bool,
    /// Whether Markdown documents are stored.
    pub md_docs: bool,
}

/// The phase that the checkpoint names after a step that succeeded.
pub open spec fn checkpoint_after(checkpoint: Option<Phase>, step: Step) -> Option<Phase> {
    match step {
        Step::BeginCheckpoint => Some(Phase::Walk),
        Step::AdvanceCheckpoint(phase) => Some(phase),
        Step::ClearCheckpoint => None,
        _ => checkpoint,
    }
}

/// What the end of the step at hand changes in a run that goes on: the stage, the
/// checkpoint and what is relaxed in the engine.
pub open spec fn noted(s: RunState, failed: bool) -> RunState {
    RunState {
        stage: if s.step == Step::ReadCheckpoint {
            Stage::Sources
        } else {
            s.stage
        },
        checkpoint: if failed {
            s.checkpoint
        } else {
            checkpoint_after(s.checkpoint, s.step)
        },
        bulk_loading: if s.step == Step::EnableBulkLoad {
            !failed
        } else {
            s.bulk_loading && s.step != Step::DisableBulkLoad
        },
        keys_deferred: if s.step == Step::DeferForeignKeys {
            !failed
        } else {
            s.keys_deferred && s.step != Step::ResetForeignKeys
        },
        ..s
    }
}

/// A run that goes on with the given steps, or is complete where there are none.
pub open spec fn proceed(s: RunState, steps: Seq<Step>) -> (RunState, Progress) {
    if steps.len() > 0 {
        (RunState { step: steps[0], todo: steps.drop_first(), ..s }, Progress::Do(steps[0]))
    } else {
        (RunState { stage: Stage::Finished, todo: steps, ..s }, Progress::Done)
    }
}

/// Where a run stands after its step ended, and what it does next. `phase` is what
/// the checkpoint said, where that was read.
pub open spec fn run_next(
    facts: RunFacts,
    s: RunState,
    failed: bool,
    phase: Option<Phase>,
) -> (RunState, Progress) {
    if s.stage == Stage::Finished {
        (s, Progress::Done)
    } else if s.stage == Stage::Aborted {
        (s, Progress::Failed)
    } else if s.step == Step::Rollback {
        (RunState { stage: Stage::Aborted, ..s }, Progress::Failed)
    } else if failed && is_rolled_back(s.step) {
        (
            RunState { step: Step::Rollback, todo: Seq::empty(), ..s },
            Progress::Do(Step::Rollback),
        )
    } else if failed && is_fatal(s.step) {
        (RunState { stage: Stage::Aborted, ..s }, Progress::Failed)
    } else {
        let t = noted(s, failed);
        if s.step == Step::ReadCheckpoint {
            let resume = taken_up(facts.quality_child, phase);
            proceed(
                RunState { resume, checkpoint: resume, ..t },
                sources_plan(facts.quality_child, resume),
            )
        } else if s.step == Step::IndexCode {
            proceed(t, restore_plan(s.bulk_loading, s.keys_deferred) + s.todo)
        } else if s.stage == Stage::Sources && s.todo.len() == 0 {
            proceed(
                RunState { stage: Stage::Indexing, ..t },
                index_plan(facts, s.resume),
            )
        } else {
            proceed(t, s.todo)
        }
    }
}

/// A run of an ingest.
#[derive(Debug)]
pub struct IngestRun<C, D, L> {
    pub flags: RunFlags,
    /// Whether this is the detached process that adds embeddings to what its
    /// parent stored.
    pub quality_child: bool,
    pub stage: Stage,
    /// The step at hand.
    pub step: Step,
    /// The steps after it, the next one first.
    pub todo: Vec<Step>,
    /// The phase in which the run that this one resumes was interrupted.
    pub resume: Option<Phase>,
    /// The phase that the checkpoint of this run names.
    pub checkpoint: Option<Phase>,
    pub bulk_loading: bool,
    pub keys_deferred: bool,
    /// What the pass over symbols reported.
    pub symbol_cards: DistillStats,
    pub summary: IngestSummary<C, D, L>,
}

impl<C, D, L> IngestRun<C, D, L> {
    /// Where this run stands.
    pub open spec fn state(&self) -> RunState {
        RunState {
            stage: self.stage,
            step: self.step,
            todo: self.todo@,
            resume: self.resume,
            checkpoint: self.checkpoint,
            bulk_loading: self.bulk_loading,
            keys_deferred: self.keys_deferred,
        }
    }
}

/// What decides over the steps of a run, once its summary is `summary`.
pub open spec fn facts_of<C, D, L>(
    flags: RunFlags,
    quality_child: bool,
    summary: IngestSummary<C, D, L>,
) -> RunFacts {
    RunFacts {
        flags,
        quality_child,
        sources: summary.code_upserts > 0,
        row_docs: summary.doc_upserts + summary.binary_upserts > 0,
        md_docs: summary.md_doc_upserts > 0,
    }
}

/// What the distillation passes report together: the pass over symbols on symbols,
/// and the pass over files on the rest.
pub open spec fn distill_report(symbols: DistillStats, files: DistillStats) -> DistillSummary {
    DistillSummary {
        symbols_written: symbols.symbols_written,
        symbols_unchanged: symbols.symbols_unchanged,
        files_written: files.files_written,
        pagerank_iters: files.pagerank_iters,
        pagerank_converged: files.pagerank_converged,
    }
}

/// What a distillation pass reports; one that failed did nothing.
pub open spec fn cards_of<C, D, L>(outcome: Outcome<C, D, L>) -> DistillStats {
    match outcome {
        Outcome::Cards(stats) => stats,
        _ => no_distill(),
    }
}

/// The summary after a step ended.
pub open spec fn recorded<C, D, L>(
    summary: IngestSummary<C, D, L>,
    symbol_cards: DistillStats,
    step: Step,
    outcome: Outcome<C, D, L>,
) -> IngestSummary<C, D, L> {
    match (step, outcome) {
        (Step::CountRows(Table::Src), Outcome::Rows(Some(cell))) => IngestSummary {
            code_upserts: count_of(cell) as u64,
            ..summary
        },
        (Step::CountRows(Table::Docs), Outcome::Rows(Some(cell))) => IngestSummary {
            doc_upserts: count_of(cell) as u64,
            ..summary
        },
        (Step::CountRows(Table::DocsMd), Outcome::Rows(Some(cell))) => IngestSummary {
            md_doc_upserts: count_of(cell) as u64,
            ..summary
        },
        (Step::IndexCode, Outcome::Indexed(stats)) => IngestSummary {
            code: Some(stats),
            ..summary
        },
        (Step::IngestDocs(Table::Docs), Outcome::Ingested(stats)) => IngestSummary {
            docs: Some(stats),
            ..summary
        },
        (Step::IngestDocs(Table::DocsMd), Outcome::Ingested(stats)) => IngestSummary {
            docs_md: Some(stats),
            ..summary
        },
        (Step::LinkMentions, Outcome::Linked(stats)) => IngestSummary {
            links: Some(stats),
            ..summary
        },
        (Step::BuildRepomapCards, _) => IngestSummary {
            distill: Some(distill_report(symbol_cards, cards_of(outcome))),
            ..summary
        },
        (Step::DistillWithModel, Outcome::Distilled(stats)) => IngestSummary {
            llm_distill: Some(stats),
            ..summary
        },
        _ => summary,
    }
}

/// What the checkpoint said, where it was read.
pub open spec fn phase_of<C, D, L>(outcome: Outcome<C, D, L>) -> Option<Phase> {
    match outcome {
        Outcome::Checkpoint(phase) => phase,
        _ => None,
    }
}

/// Whether a run still takes steps.
pub open spec fn is_live(stage: Stage) -> bool {
    stage != Stage::Finished && stage != Stage::Aborted
}

fn push_if(steps: &mut Vec<Step>, taken: bool, step: Step)
    ensures
        final(steps)@ == old(steps)@ + only(taken, step),
{
    let ghost before = steps@;
    if taken {
        steps.push(step);
    }
    assert(steps@ =~= before + only(taken, step));
}

fn plan_sources(quality_child: bool, resume: Option<Phase>) -> (r: Vec<Step>)
    ensures
        r@ == sources_plan(quality_child, resume),
{
    let finished: bool = match resume {
        Some(Phase::Walk) => false,
        Some(_) => true,
        None => false,
    };
    let r: Vec<Step> = if quality_child {
        vec![Step::CountRows(Table::Src), Step::CountRows(Table::Docs)]
    } else if finished {
        vec![
            Step::CountRows(Table::Src),
            Step::CountRows(Table::Docs),
            Step::CountRows(Table::DocsMd),
        ]
    } else {
        vec![Step::BeginCheckpoint, Step::BeginTransaction, Step::Walk, Step::Commit]
    };
    assert(r@ =~= sources_plan(quality_child, resume));
    r
}

/// Whether a run that resumes one still has to index code, and whether it still has
/// to project documents.
fn due(resume: Option<Phase>) -> (r: (bool, bool))
    ensures
        r.0 == is_due(resume, Phase::CodeIndex),
        r.1 == is_due(resume, Phase::GraphRag),
{
    match resume {
        None => (true, true),
        Some(Phase::Walk) => (true, true),
        Some(Phase::CodeIndex) => (true, true),
        Some(Phase::GraphRag) => (false, true),
        Some(Phase::Distill) => (false, false),
    }
}

fn plan_code(steps: &mut Vec<Step>, flags: RunFlags, quality_child: bool, sources: bool)
    ensures
        final(steps)@ == old(steps)@ + code_plan(flags, quality_child, sources),
{
    let ghost before = steps@;
    if sources && !flags.skip_code_graph {
        push_if(steps, !quality_child, Step::AdvanceCheckpoint(Phase::CodeIndex));
        steps.push(Step::EnableBulkLoad);
        steps.push(Step::DeferForeignKeys);
        steps.push(Step::IndexCode);
    }
    assert(steps@ =~= before + code_plan(flags, quality_child, sources));
}

fn plan_docs(
    steps: &mut Vec<Step>,
    flags: RunFlags,
    quality_child: bool,
    row_docs: bool,
    md_docs: bool,
)
    ensures
        final(steps)@ == old(steps)@ + docs_plan(flags, quality_child, row_docs, md_docs),
{
    let ghost before = steps@;
    if row_docs || md_docs {
        push_if(steps, !quality_child, Step::AdvanceCheckpoint(Phase::GraphRag));
        push_if(steps, row_docs, Step::IngestDocs(Table::Docs));
        push_if(steps, md_docs, Step::IngestDocs(Table::DocsMd));
        push_if(steps, !flags.skip_linker, Step::LinkMentions);
    }
    assert(steps@ =~= before + docs_plan(flags, quality_child, row_docs, md_docs));
}

fn plan_distill(steps: &mut Vec<Step>, flags: RunFlags, quality_child: bool, stored: bool)
    ensures
        final(steps)@ == old(steps)@ + distill_plan(flags, quality_child, stored),
{
    let ghost before = steps@;
    if !quality_child && stored {
        steps.push(Step::AdvanceCheckpoint(Phase::Distill));
        steps.push(Step::BuildSymbolCards);
        steps.push(Step::BuildRepomapCards);
        push_if(steps, flags.llm_distill, Step::DistillWithModel);
    }
    assert(steps@ =~= before + distill_plan(flags, quality_child, stored));
}

fn plan_index(
    flags: RunFlags,
    quality_child: bool,
    resume: Option<Phase>,
    sources: bool,
    row_docs: bool,
    md_docs: bool,
) -> (r: Vec<Step>)
    ensures
        r@ == index_plan(
            (RunFacts { flags, quality_child, sources, row_docs, md_docs }),
            resume,
        ),
{
    let (code_due, docs_due): (bool, bool) = due(resume);
    let mut r: Vec<Step> = Vec::new();
    plan_code(&mut r, flags, quality_child, sources && code_due);
    assert(r@ =~= code_plan(flags, quality_child, sources && code_due));
    plan_docs(&mut r, flags, quality_child, row_docs && docs_due, md_docs && docs_due);
    plan_distill(&mut r, flags, quality_child, sources || row_docs || md_docs);
    push_if(&mut r, !quality_child, Step::ClearCheckpoint);
    r
}

fn fatal(step: Step) -> (r: bool)
    ensures
        r == is_fatal(step),
{
    match step {
        Step::EnsureTables
        | Step::ReadCheckpoint
        | Step::BeginCheckpoint
        | Step::BeginTransaction
        | Step::Walk
        | Step::Commit
        | Step::AdvanceCheckpoint(_) => true,
        _ => false,
    }
}

/// The flags of a run with the given options.
pub fn run_flags(options: &IngestOptions) -> (r: RunFlags)
    ensures
        r.skip_linker == options.skip_linker,
        r.skip_code_graph == options.skip_code_graph,
        r.llm_distill == (options.llm_distill is Some),
{
    RunFlags {
        skip_linker: options.skip_linker,
        skip_code_graph: options.skip_code_graph,
        llm_distill: options.llm_distill.is_some(),
    }
}

impl<C, D, L> IngestRun<C, D, L> {
    /// A run that is about to take its first step.
    pub fn new(flags: RunFlags, quality_child: bool) -> (r: Self)
        ensures
            r.flags == flags,
            r.quality_child == quality_child,
            r.state() == first_state(),
            r.symbol_cards == no_distill(),
            r.summary.code_upserts == 0,
            r.summary.doc_upserts == 0,
            r.summary.md_doc_upserts == 0,
            r.summary.binary_upserts == 0,
            r.summary.files_seen == 0,
            r.summary.skipped == 0,
            r.summary.read_errors == 0,
            r.summary.read_error_samples@.len() == 0,
            r.summary.elapsed_ms == 0,
            r.summary.code is None,
            r.summary.docs is None,
            r.summary.docs_md is None,
            r.summary.links is None,
            r.summary.distill is None,
            r.summary.llm_distill is None,
    {
        let r = IngestRun {
            flags,
            quality_child,
            stage: Stage::Opening,
            step: Step::EnsureTables,
            todo: vec![Step::ReadCheckpoint],
            resume: None,
            checkpoint: None,
            bulk_loading: false,
            keys_deferred: false,
            symbol_cards: DistillStats::default(),
            summary: IngestSummary::default(),
        };
        assert(r.todo@ =~= seq![Step::ReadCheckpoint]);
        r
    }

    /// Goes on with the given steps, or completes the run where there are none.
    fn proceed(&mut self, steps: Vec<Step>) -> (r: Progress)
        ensures
            (final(self).state(), r) == proceed(old(self).state(), steps@),
            *final(self) == (IngestRun {
                stage: final(self).stage,
                step: final(self).step,
                todo: final(self).todo,
                ..*old(self)
            }),
    {
        let mut rest = steps;
        if rest.len() > 0 {
            let next: Step = rest.remove(0);
            assert(rest@ =~= steps@.drop_first());
            self.step = next;
            self.todo = rest;
            Progress::Do(next)
        } else {
            self.stage = Stage::Finished;
            self.todo = rest;
            Progress::Done
        }
    }

    /// Notes what the end of the step at hand changes: the stage, the checkpoint and
    /// what is relaxed in the engine.
    fn note(&mut self, failed: bool)
        ensures
            final(self).state() == noted(old(self).state(), failed),
            *final(self) == (IngestRun {
                stage: final(self).stage,
                checkpoint: final(self).checkpoint,
                bulk_loading: final(self).bulk_loading,
                keys_deferred: final(self).keys_deferred,
                ..*old(self)
            }),
    {
        match self.step {
            Step::ReadCheckpoint => {
                self.stage = Stage::Sources;
            },
            Step::BeginCheckpoint => {
                if !failed {
                    self.checkpoint = Some(Phase::Walk);
                }
            },
            Step::AdvanceCheckpoint(next) => {
                if !failed {
                    self.checkpoint = Some(next);
                }
            },
            Step::ClearCheckpoint => {
                if !failed {
                    self.checkpoint = None;
                }
            },
            Step::EnableBulkLoad => {
                self.bulk_loading = !failed;
            },
            Step::DisableBulkLoad => {
                self.bulk_loading = false;
            },
            Step::DeferForeignKeys => {
                self.keys_deferred = !failed;
            },
            Step::ResetForeignKeys => {
                self.keys_deferred = false;
            },
            _ => {},
        }
    }

    /// Goes on after the step at hand ended.
    fn settle(&mut self, failed: bool, phase: Option<Phase>) -> (r: Progress)
        requires
            is_live(old(self).stage),
        ensures
            (final(self).state(), r) == run_next(
                facts_of(old(self).flags, old(self).quality_child, old(self).summary),
                old(self).state(),
                failed,
                phase,
            ),
            final(self).flags == old(self).flags,
            final(self).quality_child == old(self).quality_child,
            final(self).symbol_cards == old(self).symbol_cards,
            final(self).summary == old(self).summary,
    {
        let step: Step = self.step;
        if step == Step::Rollback {
            self.stage = Stage::Aborted;
            return Progress::Failed;
        }
        if failed && (step == Step::Walk || step == Step::Commit) {
            self.step = Step::Rollback;
            self.todo = Vec::new();
            assert(self.todo@ =~= Seq::<Step>::empty());
            return Progress::Do(Step::Rollback);
        }
        if failed && fatal(step) {
            self.stage = Stage::Aborted;
            return Progress::Failed;
        }
        let mut steps: Vec<Step> = Vec::new();
        if step == Step::IndexCode {
            push_if(&mut steps, self.bulk_loading, Step::DisableBulkLoad);
            push_if(&mut steps, self.keys_deferred, Step::ResetForeignKeys);
            assert(steps@ =~= restore_plan(self.bulk_loading, self.keys_deferred));
        }
        let ghost undone = steps@;
        let ghost rest = self.todo@;
        let filled: bool = self.stage == Stage::Sources && self.todo.len() == 0;
        self.note(failed);
        if step == Step::ReadCheckpoint {
            let resume: Option<Phase> = if self.quality_child {
                None
            } else {
                phase
            };
            self.resume = resume;
            self.checkpoint = resume;
            let planned = plan_sources(self.quality_child, resume);
            return self.proceed(planned);
        }
        if step != Step::IndexCode && filled {
            self.stage = Stage::Indexing;
            let planned = plan_index(
                self.flags,
                self.quality_child,
                self.resume,
                self.summary.code_upserts > 0,
                self.summary.doc_upserts > 0 || self.summary.binary_upserts > 0,
                self.summary.md_doc_upserts > 0,
            );
            return self.proceed(planned);
        }
        steps.append(&mut self.todo);
        assert(steps@ =~= undone + rest);
        assert(undone.len() == 0 ==> steps@ =~= rest);
        self.proceed(steps)
    }
}

/// Where a run begins.
pub open spec fn first_state() -> RunState {
    RunState {
        stage: Stage::Opening,
        step: Step::EnsureTables,
        todo: seq![Step::ReadCheckpoint],
        resume: None,
        checkpoint: None,
        bulk_loading: false,
        keys_deferred: false,
    }
}

/// Enters what a step reported in the summary.
fn record<C, D, L>(
    summary: &mut IngestSummary<C, D, L>,
    symbol_cards: DistillStats,
    step: Step,
    outcome: Outcome<C, D, L>,
)
    ensures
        *final(summary) == recorded(*old(summary), symbol_cards, step, outcome),
{
    match step {
        Step::CountRows(table) => {
            if let Outcome::Rows(Some(cell)) = outcome {
                let n: u64 = row_count(cell);
                match table {
                    Table::Src => {
                        summary.code_upserts = n;
                    },
                    Table::Docs => {
                        summary.doc_upserts = n;
                    },
                    Table::DocsMd => {
                        summary.md_doc_upserts = n;
                    },
                }
            }
        },
        Step::IndexCode => {
            if let Outcome::Indexed(stats) = outcome {
                summary.code = Some(stats);
            }
        },
        Step::IngestDocs(table) => {
            if let Outcome::Ingested(stats) = outcome {
                match table {
                    Table::Docs => {
                        summary.docs = Some(stats);
                    },
                    Table::DocsMd => {
                        summary.docs_md = Some(stats);
                    },
                    Table::Src => {},
                }
            }
        },
        Step::LinkMentions => {
            if let Outcome::Linked(stats) = outcome {
                summary.links = Some(stats);
            }
        },
        Step::BuildRepomapCards => {
            let files: DistillStats = match outcome {
                Outcome::Cards(stats) => stats,
                _ => DistillStats::default(),
            };
            summary.distill = Some(
                DistillSummary {
                    symbols_written: symbol_cards.symbols_written,
                    symbols_unchanged: symbol_cards.symbols_unchanged,
                    files_written: files.files_written,
                    pagerank_iters: files.pagerank_iters,
                    pagerank_converged: files.pagerank_converged,
                },
            );
        },
        Step::DistillWithModel => {
            if let Outcome::Distilled(stats) = outcome {
                summary.llm_distill = Some(stats);
            }
        },
        _ => {},
    }
}

/// Takes a run on after the step at hand ended, and tells what it does next. A run
/// that has ended stays as it is.
pub fn ingest<C, D, L>(run: &mut IngestRun<C, D, L>, outcome: Outcome<C, D, L>) -> (r: Progress)
    ensures
        final(run).flags == old(run).flags,
        final(run).quality_child == old(run).quality_child,
        final(run).summary == if is_live(old(run).stage) {
            recorded(old(run).summary, old(run).symbol_cards, old(run).step, outcome)
        } else {
            old(run).summary
        },
        final(run).symbol_cards == if is_live(old(run).stage) && old(run).step
            == Step::BuildSymbolCards {
            cards_of(outcome)
        } else {
            old(run).symbol_cards
        },
        (final(run).state(), r) == run_next(
            facts_of(old(run).flags, old(run).quality_child, final(run).summary),
            old(run).state(),
            outcome is Failed,
            phase_of(outcome),
        ),
{
    if run.stage == Stage::Finished {
        return Progress::Done;
    }
    if run.stage == Stage::Aborted {
        return Progress::Failed;
    }
    let step: Step = run.step;
    let failed: bool = match &outcome {
        Outcome::Failed => true,
        _ => false,
    };
    let phase: Option<Phase> = match &outcome {
        Outcome::Checkpoint(phase) => *phase,
        _ => None,
    };
    let cards: DistillStats = match &outcome {
        Outcome::Cards(stats) => *stats,
        _ => DistillStats::default(),
    };
    record(&mut run.summary, run.symbol_cards, step, outcome);
    if step == Step::BuildSymbolCards {
        run.symbol_cards = cards;
    }
    run.settle(failed, phase)
}

/// The statement that carries out a step that is no more than one.
pub open spec fn sql_of_step(step: Step) -> Option<Seq<char>> {
    match step {
        Step::BeginTransaction => Some("BEGIN"@),
        Step::Commit => Some("COMMIT"@),
        Step::Rollback => Some("ROLLBACK"@),
        Step::EnableBulkLoad => Some("SET bulk_load_mode = true"@),
        Step::DeferForeignKeys => Some("SET fk_validation = deferred"@),
        Step::DisableBulkLoad => Some("SET bulk_load_mode = false"@),
        Step::ResetForeignKeys => Some("RESET fk_validation"@),
        _ => None,
    }
}

/// The statement that carries out a step that is no more than one.
pub fn step_sql(step: Step) -> (r: Option<&'static str>)
    ensures
        match r {
            Some(sql) => sql_of_step(step) == Some(sql@),
            None => sql_of_step(step) is None,
        },
{
    match step {
        Step::BeginTransaction => Some("BEGIN"),
        Step::Commit => Some("COMMIT"),
        Step::Rollback => Some("ROLLBACK"),
        Step::EnableBulkLoad => Some("SET bulk_load_mode = true"),
        Step::DeferForeignKeys => Some("SET fk_validation = deferred"),
        Step::DisableBulkLoad => Some("SET bulk_load_mode = false"),
        Step::ResetForeignKeys => Some("RESET fk_validation"),
        _ => None,
    }
}

/// Which entry of the engine indexes the code.
#[derive(Debug, Clone, Copy, PartialEq, Eq, Structural)]
pub enum Indexer {
    /// The plain one.
    Plain,
    /// The one that is given an embedder in this process.
    InProcessEmbedder,
}

/// The indexer of a run with the given options: an embedder in this process takes
/// part where embeddings are asked for, and not otherwise.
pub fn indexer_of(options: &IngestOptions) -> (r: Indexer)
    ensures
        r == Indexer::InProcessEmbedder <==> options.with_embeddings,
        r == Indexer::Plain <==> !options.with_embeddings,
{
    if options.with_embeddings {
        Indexer::InProcessEmbedder
    } else {
        Indexer::Plain
    }
}

/// What the engine's code indexer is asked for.
#[derive(Debug, Clone, Copy)]
pub struct CodeRequest {
    pub source_table: &'static str,
    pub embed_bodies: bool,
    /// The address of an embedding service.
    pub embed_endpoint: Option<&'static str>,
    /// The token for an embedding service.
    pub embed_bearer: Option<&'static str>,
    pub force_reparse: bool,
    pub parallelism: Option<usize>,
    pub chunk_size: Option<usize>,
}

/// The request for the code index of a run with the given options. Only embeddings
/// and reparsing make a difference to it.
pub fn code_request(options: &IngestOptions) -> (r: CodeRequest)
    ensures
        r.source_table@ == name_of_table(Table::Src),
        r.embed_bodies == options.with_embeddings,
        r.embed_endpoint is None,
        r.embed_bearer is None,
        r.force_reparse == options.force_reparse,
        r.parallelism is None,
        r.chunk_size is None,
{
    CodeRequest {
        source_table: table_name(Table::Src),
        embed_bodies: options.with_embeddings,
        embed_endpoint: None,
        embed_bearer: None,
        force_reparse: options.force_reparse,
        parallelism: None,
        chunk_size: None,
    }
}

/// What the engine's document ingester is asked for.
#[derive(Debug, Clone, Copy)]
pub struct DocsRequest {
    pub source_table: &'static str,
    pub id_col: &'static str,
    pub text_col: &'static str,
    /// Whether documents are cut at their headings, and not kept whole.
    pub by_headings: bool,
}

/// The request for the documents of a table: those in Markdown are cut at their
/// headings.
pub fn docs_request(table: Table) -> (r: DocsRequest)
    ensures
        r.source_table@ == name_of_table(table),
        r.id_col@ == "path"@,
        r.text_col@ == "content"@,
        r.by_headings == (table == Table::DocsMd),
{
    DocsRequest {
        source_table: table_name(table),
        id_col: "path",
        text_col: "content",
        by_headings: table == Table::DocsMd,
    }
}

/// The report of a run that took `elapsed_ms` milliseconds.
pub fn finish<C, D, L>(run: IngestRun<C, D, L>, elapsed_ms: u128) -> (r: IngestSummary<C, D, L>)
    ensures
        r == (IngestSummary { elapsed_ms, ..run.summary }),
{
    let mut summary = run.summary;
    summary.elapsed_ms = elapsed_ms;
    summary
}

} // verus!
