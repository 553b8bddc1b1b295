//! What the options of a run leave out, and what they leave as it is.

use crate::ingest::{
    code_plan, distill_plan, docs_plan, first_state, index_plan, is_due, is_fatal, is_live,
    is_rolled_back, noted, only, proceed, recorded, restore_plan, run_next, sources_plan, taken_up,
    DistillStats, Outcome, Phase, RunFacts, RunFlags, RunState, Stage, Step,
};
use crate::run_laws::ahead;
use crate::store::Table;
use crate::summary::IngestSummary;
use vstd::prelude::*;

verus! {

/// Whatever is stored is distilled, be it code or documents, unless the run is a
/// quality child; the language model takes part where that is asked for.
pub proof fn law_whatever_is_stored_is_distilled(facts: RunFacts, resume: Option<Phase>)
    requires
        !facts.quality_child,
        facts.sources || facts.row_docs || facts.md_docs,
    ensures
        index_plan(facts, resume).contains(Step::BuildSymbolCards),
        index_plan(facts, resume).contains(Step::BuildRepomapCards),
        index_plan(facts, resume).contains(Step::DistillWithModel) == facts.flags.llm_distill,
{
    let due = is_due(resume, Phase::GraphRag);
    let code = code_plan(facts.flags, false, facts.sources && is_due(resume, Phase::CodeIndex));
    let docs = docs_plan(facts.flags, false, facts.row_docs && due, facts.md_docs && due);
    let distill = distill_plan(facts.flags, false, true);
    let end = only(true, Step::ClearCheckpoint);
    let plan = index_plan(facts, resume);
    let n: int = code.len() + docs.len() as int;
    assert(plan == code + docs + distill + end);
    assert(plan[n + 1] == distill[1]);
    assert(plan[n + 2] == distill[2]);
    if facts.flags.llm_distill {
        assert(plan[n + 3] == distill[3]);
    } else {
        assert forall|i: int| 0 <= i < plan.len() implies #[trigger] plan[i]
            != Step::DistillWithModel by {
            if i < code.len() {
                assert(plan[i] == code[i]);
            } else if i < n {
                assert(plan[i] == docs[i - code.len()]);
            } else if i < n + distill.len() {
                assert(plan[i] == distill[i - n]);
            } else {
                assert(plan[i] == end[i - n - distill.len()]);
            }
        }
    }
}

/// The cards of files are written right after those of symbols, on which they draw.
pub proof fn law_file_cards_follow_symbol_cards(
    flags: RunFlags,
    quality_child: bool,
    stored: bool,
    i: int,
)
    requires
        0 <= i < distill_plan(flags, quality_child, stored).len(),
        distill_plan(flags, quality_child, stored)[i] == Step::BuildRepomapCards,
    ensures
        i > 0,
        distill_plan(flags, quality_child, stored)[i - 1] == Step::BuildSymbolCards,
{
}

/// Leaving out the code graph leaves the document passes and the distillation as
/// they are.
pub proof fn law_skipping_the_code_graph(facts: RunFacts, resume: Option<Phase>)
    requires
        facts.flags.skip_code_graph,
    ensures
        ({
            let due = is_due(resume, Phase::GraphRag);
            let with = RunFlags { skip_code_graph: false, ..facts.flags };
            let child = facts.quality_child;
            let stored = facts.sources || facts.row_docs || facts.md_docs;
            index_plan(facts, resume) == docs_plan(
                with,
                child,
                facts.row_docs && due,
                facts.md_docs && due,
            ) + distill_plan(with, child, stored) + only(!child, Step::ClearCheckpoint)
        }),
{
    let due = is_due(resume, Phase::GraphRag);
    let child = facts.quality_child;
    let code = code_plan(facts.flags, child, facts.sources && is_due(resume, Phase::CodeIndex));
    let docs = docs_plan(facts.flags, child, facts.row_docs && due, facts.md_docs && due);
    assert(code + docs =~= docs);
}

/// Whether a step is another than the linker's.
pub open spec fn is_not_link(step: Step) -> bool {
    step != Step::LinkMentions
}

/// Steps without those of the linker.
#[verifier::opaque]
pub open spec fn unlinked(steps: Seq<Step>) -> Seq<Step> {
    steps.filter(|step: Step| is_not_link(step))
}

proof fn lemma_unlinked_parts(a: Seq<Step>, b: Seq<Step>)
    ensures
        unlinked(a + b) == unlinked(a) + unlinked(b),
{
    reveal(unlinked);
    Seq::filter_distributes_over_add(a, b, |step: Step| is_not_link(step));
}

proof fn lemma_unlinked_same(steps: Seq<Step>)
    requires
        !steps.contains(Step::LinkMentions),
    ensures
        unlinked(steps) == steps,
    decreases steps.len(),
{
    reveal(unlinked);
    reveal(Seq::filter);
    if steps.len() > 0 {
        let front = steps.drop_last();
        assert(!front.contains(Step::LinkMentions)) by {
            if front.contains(Step::LinkMentions) {
                let i = choose|i: int| 0 <= i < front.len() && front[i] == Step::LinkMentions;
                assert(steps[i] == Step::LinkMentions);
            }
        }
        lemma_unlinked_same(front);
        assert(steps[steps.len() - 1] != Step::LinkMentions);
        assert(unlinked(steps) =~= front.push(steps.last()));
    } else {
        assert(unlinked(steps) =~= steps);
    }
}

proof fn lemma_unlinked_first(steps: Seq<Step>)
    requires
        steps.len() > 0,
    ensures
        unlinked(steps) == only(is_not_link(steps[0]), steps[0]) + unlinked(steps.drop_first()),
{
    let first = seq![steps[0]];
    assert(steps =~= first + steps.drop_first());
    lemma_unlinked_parts(first, steps.drop_first());
    assert(unlinked(first) =~= only(is_not_link(steps[0]), steps[0])) by {
        reveal(unlinked);
        reveal(Seq::filter);
        assert(first.drop_last() =~= Seq::<Step>::empty());
        assert(first.drop_last().filter(|step: Step| is_not_link(step)) =~= Seq::<Step>::empty());
    }
}

/// Facts with the linker left out, or not.
pub open spec fn with_linker(facts: RunFacts, skip: bool) -> RunFacts {
    RunFacts { flags: RunFlags { skip_linker: skip, ..facts.flags }, ..facts }
}

proof fn lemma_docs_unlinked(flags: RunFlags, quality_child: bool, row_docs: bool, md_docs: bool)
    ensures
        docs_plan(
            (RunFlags { skip_linker: true, ..flags }),
            quality_child,
            row_docs,
            md_docs,
        ) == unlinked(
            docs_plan(
                (RunFlags { skip_linker: false, ..flags }),
                quality_child,
                row_docs,
                md_docs,
            ),
        ),
{
    let docs = docs_plan(
        RunFlags { skip_linker: false, ..flags },
        quality_child,
        row_docs,
        md_docs,
    );
    if row_docs || md_docs {
        let passes = only(!quality_child, Step::AdvanceCheckpoint(Phase::GraphRag)) + only(
            row_docs,
            Step::IngestDocs(Table::Docs),
        ) + only(md_docs, Step::IngestDocs(Table::DocsMd));
        let link = seq![Step::LinkMentions];
        let none = Seq::<Step>::empty();
        assert(docs == passes + link);
        lemma_unlinked_parts(passes, link);
        lemma_unlinked_same(passes);
        lemma_unlinked_first(link);
        assert(link.drop_first() =~= none);
        lemma_unlinked_same(none);
        assert(unlinked(link) =~= none);
        assert(docs_plan(
            RunFlags { skip_linker: true, ..flags },
            quality_child,
            row_docs,
            md_docs,
        ) == passes + none);
    } else {
        lemma_unlinked_same(docs);
    }
}

proof fn lemma_unlinked_plan(code: Seq<Step>, docs: Seq<Step>, distill: Seq<Step>, end: Seq<Step>)
    requires
        !code.contains(Step::LinkMentions),
        !distill.contains(Step::LinkMentions),
        !end.contains(Step::LinkMentions),
    ensures
        unlinked(code + docs + distill + end) == code + unlinked(docs) + distill + end,
{
    lemma_unlinked_parts(code, docs);
    lemma_unlinked_parts(code + docs, distill);
    lemma_unlinked_parts(code + docs + distill, end);
    lemma_unlinked_same(code);
    lemma_unlinked_same(distill);
    lemma_unlinked_same(end);
}

/// Leaving out the linker leaves out its step, and leaves the others as they are and
/// in their order.
pub proof fn law_skipping_the_linker(facts: RunFacts, resume: Option<Phase>)
    ensures
        index_plan(with_linker(facts, true), resume) == unlinked(
            index_plan(with_linker(facts, false), resume),
        ),
{
    let flags = with_linker(facts, false).flags;
    let child = facts.quality_child;
    let due = is_due(resume, Phase::GraphRag);
    let sources = facts.sources && is_due(resume, Phase::CodeIndex);
    let stored = facts.sources || facts.row_docs || facts.md_docs;
    let code = code_plan(flags, child, sources);
    let docs = docs_plan(flags, child, facts.row_docs && due, facts.md_docs && due);
    let distill = distill_plan(flags, child, stored);
    let end = only(!child, Step::ClearCheckpoint);
    assert(!code.contains(Step::LinkMentions));
    assert(!distill.contains(Step::LinkMentions));
    lemma_unlinked_plan(code, docs, distill, end);
    lemma_docs_unlinked(facts.flags, child, facts.row_docs && due, facts.md_docs && due);
    let other = with_linker(facts, true).flags;
    assert(code_plan(other, child, sources) == code);
    assert(distill_plan(other, child, stored) == distill);
}

/// The steps that a run still has before it.
pub open spec fn remaining(s: RunState) -> Seq<Step> {
    if is_live(s.stage) {
        ahead(s)
    } else {
        Seq::empty()
    }
}

/// Whether a run without the linker stands where a run with it stands, the linker
/// aside.
pub open spec fn keeps_pace(without: RunState, with: RunState) -> bool {
    &&& without.resume == with.resume
    &&& without.checkpoint == with.checkpoint
    &&& without.bulk_loading == with.bulk_loading
    &&& without.keys_deferred == with.keys_deferred
    &&& remaining(without) == unlinked(remaining(with))
    &&& without.stage == with.stage || (without.stage == Stage::Finished && with.stage
        == Stage::Indexing)
    &&& with.stage != Stage::Indexing ==> !remaining(with).contains(Step::LinkMentions)
}

proof fn lemma_pace(without: RunState, with: RunState, less: Seq<Step>, more: Seq<Step>)
    requires
        without.resume == with.resume,
        without.checkpoint == with.checkpoint,
        without.bulk_loading == with.bulk_loading,
        without.keys_deferred == with.keys_deferred,
        without.stage == with.stage,
        is_live(with.stage),
        less == unlinked(more),
        with.stage != Stage::Indexing ==> !more.contains(Step::LinkMentions),
    ensures
        keeps_pace(proceed(without, less).0, proceed(with, more).0),
{
    if with.stage != Stage::Indexing {
        lemma_unlinked_same(more);
    }
    if more.len() > 0 {
        assert(ahead(proceed(with, more).0) =~= more);
    } else {
        lemma_unlinked_same(more);
    }
    if less.len() > 0 {
        assert(ahead(proceed(without, less).0) =~= less);
    } else {
        assert(less =~= Seq::<Step>::empty());
    }
}

proof fn lemma_pace_by_link(
    facts: RunFacts,
    without: RunState,
    with: RunState,
    failed: bool,
    phase: Option<Phase>,
)
    requires
        keeps_pace(without, with),
        is_live(with.stage),
        with.step == Step::LinkMentions,
    ensures
        keeps_pace(without, run_next(with_linker(facts, false), with, failed, phase).0),
{
    let a = ahead(with);
    let t = noted(with, failed);
    assert(a.drop_first() =~= with.todo);
    assert(a[0] == with.step);
    lemma_unlinked_first(a);
    assert(a.contains(Step::LinkMentions));
    assert(unlinked(a) =~= unlinked(with.todo));
    if with.todo.len() > 0 {
        assert(ahead(proceed(t, with.todo).0) =~= with.todo);
    } else {
        lemma_unlinked_same(with.todo);
        assert(is_live(without.stage) ==> ahead(without).len() > 0);
    }
}

proof fn lemma_same_step(without: RunState, with: RunState)
    requires
        keeps_pace(without, with),
        is_live(with.stage),
        with.step != Step::LinkMentions,
    ensures
        is_live(without.stage),
        without.stage == with.stage,
        without.step == with.step,
        without.todo == unlinked(with.todo),
        with.stage != Stage::Indexing ==> !with.todo.contains(Step::LinkMentions) && without.todo
            == with.todo,
{
    let a = ahead(with);
    assert(a.drop_first() =~= with.todo);
    assert(a[0] == with.step);
    lemma_unlinked_first(a);
    assert(unlinked(a)[0] == with.step);
    assert(is_live(without.stage));
    assert(ahead(without)[0] == without.step);
    assert(ahead(without).drop_first() =~= without.todo);
    assert(unlinked(a).drop_first() =~= unlinked(with.todo));
    if with.stage != Stage::Indexing {
        assert(!with.todo.contains(Step::LinkMentions)) by {
            if with.todo.contains(Step::LinkMentions) {
                let i = choose|i: int|
                    0 <= i < with.todo.len() && with.todo[i] == Step::LinkMentions;
                assert(a[i + 1] == Step::LinkMentions);
            }
        }
        lemma_unlinked_same(with.todo);
    }
}

proof fn lemma_pace_after_index(without: RunState, with: RunState, failed: bool)
    requires
        keeps_pace(without, with),
        is_live(with.stage),
        with.step == Step::IndexCode,
    ensures
        keeps_pace(
            proceed(
                noted(without, failed),
                restore_plan(without.bulk_loading, without.keys_deferred) + without.todo,
            ).0,
            proceed(
                noted(with, failed),
                restore_plan(with.bulk_loading, with.keys_deferred) + with.todo,
            ).0,
        ),
{
    let undo = restore_plan(with.bulk_loading, with.keys_deferred);
    let more = undo + with.todo;
    lemma_same_step(without, with);
    lemma_unlinked_same(undo);
    lemma_unlinked_parts(undo, with.todo);
    if with.stage != Stage::Indexing {
        assert forall|i: int| 0 <= i < more.len() implies #[trigger] more[i] != Step::LinkMentions by {
            if i >= undo.len() {
                assert(more[i] == with.todo[i - undo.len()]);
            } else {
                assert(more[i] == undo[i]);
            }
        }
    }
    lemma_pace(noted(without, failed), noted(with, failed), undo + without.todo, more);
}

proof fn lemma_pace_by_other(
    facts: RunFacts,
    without: RunState,
    with: RunState,
    failed: bool,
    phase: Option<Phase>,
)
    requires
        keeps_pace(without, with),
        is_live(with.stage),
        with.step != Step::LinkMentions,
    ensures
        keeps_pace(
            run_next(with_linker(facts, true), without, failed, phase).0,
            run_next(with_linker(facts, false), with, failed, phase).0,
        ),
{
    let t = noted(with, failed);
    let u = noted(without, failed);
    let none = Seq::<Step>::empty();
    lemma_same_step(without, with);
    if with.step == Step::Rollback {
        lemma_unlinked_same(none);
    } else if failed && is_rolled_back(with.step) {
        let back = seq![Step::Rollback];
        assert(back + none =~= back);
        lemma_unlinked_same(back);
    } else if failed && is_fatal(with.step) {
        lemma_unlinked_same(none);
    } else if with.step == Step::ReadCheckpoint {
        let resume = taken_up(facts.quality_child, phase);
        let plan = sources_plan(facts.quality_child, resume);
        lemma_unlinked_same(plan);
        lemma_pace(
            RunState { resume, checkpoint: resume, ..u },
            RunState { resume, checkpoint: resume, ..t },
            plan,
            plan,
        );
    } else if with.step == Step::IndexCode {
        lemma_pace_after_index(without, with, failed);
    } else if with.stage == Stage::Sources && with.todo.len() == 0 {
        law_skipping_the_linker(facts, with.resume);
        lemma_pace(
            RunState { stage: Stage::Indexing, ..u },
            RunState { stage: Stage::Indexing, ..t },
            index_plan(with_linker(facts, true), with.resume),
            index_plan(with_linker(facts, false), with.resume),
        );
    } else {
        lemma_pace(u, t, without.todo, with.todo);
    }
}

/// Two runs that differ only in leaving out the linker keep pace: while the one with
/// the linker links, the other waits, and any other step both take, under the same
/// conditions and with the same consequences.
pub proof fn law_runs_with_and_without_linker_keep_pace(
    facts: RunFacts,
    without: RunState,
    with: RunState,
    failed: bool,
    phase: Option<Phase>,
)
    requires
        keeps_pace(without, with),
        is_live(with.stage),
    ensures
        with.step == Step::LinkMentions ==> keeps_pace(
            without,
            run_next(with_linker(facts, false), with, failed, phase).0,
        ),
        with.step != Step::LinkMentions ==> without.step == with.step && is_live(without.stage)
            && keeps_pace(
            run_next(with_linker(facts, true), without, failed, phase).0,
            run_next(with_linker(facts, false), with, failed, phase).0,
        ),
{
    if with.step == Step::LinkMentions {
        lemma_pace_by_link(facts, without, with, failed, phase);
    } else {
        lemma_same_step(without, with);
        lemma_pace_by_other(facts, without, with, failed, phase);
    }
}

/// Runs with and without the linker begin together.
pub proof fn law_runs_with_and_without_linker_begin_together()
    ensures
        keeps_pace(first_state(), first_state()),
{
    let a = ahead(first_state());
    assert(a =~= seq![Step::EnsureTables, Step::ReadCheckpoint]);
    lemma_unlinked_same(a);
}

/// Only the linker's step changes what is reported of links, so that a run without
/// the linker reports nothing of them.
pub proof fn law_links_are_reported_by_the_linker<C, D, L>(
    summary: IngestSummary<C, D, L>,
    symbol_cards: DistillStats,
    step: Step,
    outcome: Outcome<C, D, L>,
)
    requires
        step != Step::LinkMentions,
    ensures
        recorded(summary, symbol_cards, step, outcome).links == summary.links,
{
}

} // verus!
