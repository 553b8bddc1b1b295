//! Which steps a run takes, and what it makes of their outcomes, for every tree, every
//! option and every checkpoint.

use crate::ingest::{
    cards_of, code_plan, distill_plan, docs_plan, facts_of, first_state, index_plan, is_live,
    no_distill, only, phase_of, recorded, restore_plan, run_next, sources_plan, sql_of_step,
    taken_up, DistillStats, IngestRun, Outcome, Phase, Progress, RunFacts, RunFlags, RunState, Stage, Step,
};
use crate::run_laws::{ahead, has_at, is_sound};
use crate::run_order::{
    is_one_run, is_ordered, is_orderly, law_run_stays_orderly, law_steps_are_taken_in_order, order,
    run_after, steps_taken, StepEnd,
};
use crate::store::{
    count_of, doc_md_upsert, doc_upsert, name_of_table, src_upsert, table_creation, CountCell, Table,
};
use crate::summary::{same_llm_options, DistillSummary, IngestSummary, LlmDistillOptions};
use vstd::prelude::*;

verus! {

proof fn lemma_contains_add(a: Seq<Step>, b: Seq<Step>, step: Step)
    ensures
        (a + b).contains(step) == (a.contains(step) || b.contains(step)),
{
    let c = a + b;
    if c.contains(step) {
        let i = choose|i: int| 0 <= i < c.len() && c[i] == step;
        if i < a.len() {
            assert(a[i] == step);
        } else {
            assert(b[i - a.len()] == step);
        }
    }
    if a.contains(step) {
        let i = choose|i: int| 0 <= i < a.len() && a[i] == step;
        assert(c[i] == step);
    }
    if b.contains(step) {
        let i = choose|i: int| 0 <= i < b.len() && b[i] == step;
        assert(c[a.len() + i] == step);
    }
}

proof fn lemma_contains_only(taken: bool, one: Step, step: Step)
    ensures
        only(taken, one).contains(step) == (taken && step == one),
{
    if taken {
        assert(only(taken, one)[0] == one);
    }
}

proof fn lemma_code_steps(flags: RunFlags, quality_child: bool, sources: bool, step: Step)
    ensures
        code_plan(flags, quality_child, sources).contains(step) == (sources && !flags.skip_code_graph
            && (step == Step::EnableBulkLoad || step == Step::DeferForeignKeys || step
            == Step::IndexCode || (!quality_child && step == Step::AdvanceCheckpoint(
            Phase::CodeIndex,
        )))),
{
    let a = only(!quality_child, Step::AdvanceCheckpoint(Phase::CodeIndex));
    let b = seq![Step::EnableBulkLoad, Step::DeferForeignKeys, Step::IndexCode];
    lemma_contains_only(!quality_child, Step::AdvanceCheckpoint(Phase::CodeIndex), step);
    lemma_contains_add(a, b, step);
    assert(b[0] == Step::EnableBulkLoad && b[1] == Step::DeferForeignKeys && b[2]
        == Step::IndexCode);
}

proof fn lemma_docs_steps(
    flags: RunFlags,
    quality_child: bool,
    row_docs: bool,
    md_docs: bool,
    step: Step,
)
    ensures
        docs_plan(flags, quality_child, row_docs, md_docs).contains(step) == ((row_docs && step
            == Step::IngestDocs(Table::Docs)) || (md_docs && step == Step::IngestDocs(
            Table::DocsMd,
        )) || ((row_docs || md_docs) && !flags.skip_linker && step == Step::LinkMentions) || ((
        row_docs || md_docs) && !quality_child && step == Step::AdvanceCheckpoint(
            Phase::GraphRag,
        ))),
{
    if row_docs || md_docs {
        let a = only(!quality_child, Step::AdvanceCheckpoint(Phase::GraphRag));
        let b = only(row_docs, Step::IngestDocs(Table::Docs));
        let c = only(md_docs, Step::IngestDocs(Table::DocsMd));
        let d = only(!flags.skip_linker, Step::LinkMentions);
        lemma_contains_only(!quality_child, Step::AdvanceCheckpoint(Phase::GraphRag), step);
        lemma_contains_only(row_docs, Step::IngestDocs(Table::Docs), step);
        lemma_contains_only(md_docs, Step::IngestDocs(Table::DocsMd), step);
        lemma_contains_only(!flags.skip_linker, Step::LinkMentions, step);
        lemma_contains_add(a, b, step);
        lemma_contains_add(a + b, c, step);
        lemma_contains_add(a + b + c, d, step);
    }
}

proof fn lemma_distill_steps(flags: RunFlags, quality_child: bool, stored: bool, step: Step)
    ensures
        distill_plan(flags, quality_child, stored).contains(step) == (stored && !quality_child && (
        step == Step::AdvanceCheckpoint(Phase::Distill) || step == Step::BuildSymbolCards || step
            == Step::BuildRepomapCards || (flags.llm_distill && step == Step::DistillWithModel))),
{
    let a = seq![
        Step::AdvanceCheckpoint(Phase::Distill),
        Step::BuildSymbolCards,
        Step::BuildRepomapCards,
    ];
    lemma_contains_only(flags.llm_distill, Step::DistillWithModel, step);
    lemma_contains_add(a, only(flags.llm_distill, Step::DistillWithModel), step);
    assert(a[0] == Step::AdvanceCheckpoint(Phase::Distill));
    assert(a[1] == Step::BuildSymbolCards);
    assert(a[2] == Step::BuildRepomapCards);
}

/// Whether a step is due once the tables are filled. Code is indexed where sources are
/// stored; documents of each table are projected where there are any, whatever the
/// other table holds; mentions are linked where there are documents in either; and
/// whatever is stored is distilled. A resumed run leaves out what the interrupted one
/// had completed, and a quality child the checkpoint and the distillation.
pub open spec fn is_step_due(facts: RunFacts, resume: Option<Phase>, step: Step) -> bool {
    let owner = !facts.quality_child;
    let code = facts.sources && !facts.flags.skip_code_graph && resume != Some(Phase::GraphRag)
        && resume != Some(Phase::Distill);
    let docs = resume != Some(Phase::Distill);
    let stored = facts.sources || facts.row_docs || facts.md_docs;
    match step {
        Step::AdvanceCheckpoint(Phase::CodeIndex) => owner && code,
        Step::EnableBulkLoad => code,
        Step::DeferForeignKeys => code,
        Step::IndexCode => code,
        Step::AdvanceCheckpoint(Phase::GraphRag) => owner && docs && (facts.row_docs
            || facts.md_docs),
        Step::IngestDocs(Table::Docs) => docs && facts.row_docs,
        Step::IngestDocs(Table::DocsMd) => docs && facts.md_docs,
        Step::LinkMentions => docs && (facts.row_docs || facts.md_docs) && !facts.flags.skip_linker,
        Step::AdvanceCheckpoint(Phase::Distill) => owner && stored,
        Step::BuildSymbolCards => owner && stored,
        Step::BuildRepomapCards => owner && stored,
        Step::DistillWithModel => owner && stored && facts.flags.llm_distill,
        Step::ClearCheckpoint => owner,
        _ => false,
    }
}

/// Once the tables are filled, a run has before it exactly the steps that are due.
pub proof fn law_due_steps_are_planned(facts: RunFacts, resume: Option<Phase>, step: Step)
    ensures
        index_plan(facts, resume).contains(step) == is_step_due(facts, resume, step),
{
    let child = facts.quality_child;
    let code_due = resume != Some(Phase::GraphRag) && resume != Some(Phase::Distill);
    let docs_due = resume != Some(Phase::Distill);
    let stored = facts.sources || facts.row_docs || facts.md_docs;
    let a = code_plan(facts.flags, child, facts.sources && code_due);
    let b = docs_plan(facts.flags, child, facts.row_docs && docs_due, facts.md_docs && docs_due);
    let c = distill_plan(facts.flags, child, stored);
    let d = only(!child, Step::ClearCheckpoint);
    lemma_code_steps(facts.flags, child, facts.sources && code_due, step);
    lemma_docs_steps(
        facts.flags,
        child,
        facts.row_docs && docs_due,
        facts.md_docs && docs_due,
        step,
    );
    lemma_distill_steps(facts.flags, child, stored, step);
    lemma_contains_only(!child, Step::ClearCheckpoint, step);
    lemma_contains_add(a, b, step);
    lemma_contains_add(a + b, c, step);
    lemma_contains_add(a + b + c, d, step);
    assert(index_plan(facts, resume) == a + b + c + d);
}

/// Whether a step is due to fill the tables, or to count what is in them.
pub open spec fn is_source_step_due(quality_child: bool, resume: Option<Phase>, step: Step) -> bool {
    let trusted = resume == Some(Phase::CodeIndex) || resume == Some(Phase::GraphRag) || resume
        == Some(Phase::Distill);
    match step {
        Step::CountRows(Table::Src) => quality_child || trusted,
        Step::CountRows(Table::Docs) => quality_child || trusted,
        Step::CountRows(Table::DocsMd) => !quality_child && trusted,
        Step::BeginCheckpoint => !quality_child && !trusted,
        Step::BeginTransaction => !quality_child && !trusted,
        Step::Walk => !quality_child && !trusted,
        Step::Commit => !quality_child && !trusted,
        _ => false,
    }
}

/// Once the checkpoint was read, a run has before it exactly the steps that are due to
/// fill the tables, in order, and knows what it resumes.
pub proof fn law_source_steps_are_planned(
    facts: RunFacts,
    s: RunState,
    phase: Option<Phase>,
    step: Step,
)
    requires
        is_live(s.stage),
        s.step == Step::ReadCheckpoint,
    ensures
        ({
            let n = run_next(facts, s, false, phase).0;
            let resume = if facts.quality_child {
                None
            } else {
                phase
            };
            &&& n.stage == Stage::Sources
            &&& n.resume == resume
            &&& n.checkpoint == resume
            &&& ahead(n).contains(step) == is_source_step_due(facts.quality_child, phase, step)
            &&& is_ordered(ahead(n), 2, 10)
        }),
{
    let plan = sources_plan(facts.quality_child, taken_up(facts.quality_child, phase));
    let n = run_next(facts, s, false, phase).0;
    assert(ahead(n) =~= plan);
    if facts.quality_child {
        assert(plan[0] == Step::CountRows(Table::Src) && plan[1] == Step::CountRows(Table::Docs));
    } else if phase is Some && phase->0 != Phase::Walk {
        assert(plan[0] == Step::CountRows(Table::Src) && plan[1] == Step::CountRows(Table::Docs)
            && plan[2] == Step::CountRows(Table::DocsMd));
    } else {
        assert(plan[0] == Step::BeginCheckpoint && plan[1] == Step::BeginTransaction && plan[2]
            == Step::Walk && plan[3] == Step::Commit);
    }
}

/// When the last step that fills the tables has ended, a run has before it exactly the
/// steps that are due, in order.
pub proof fn law_index_steps_follow(
    facts: RunFacts,
    s: RunState,
    failed: bool,
    phase: Option<Phase>,
    step: Step,
)
    requires
        is_sound(facts.flags, facts.quality_child, s),
        is_orderly(s),
        s.stage == Stage::Sources,
        s.todo.len() == 0,
        s.step != Step::Rollback,
        run_next(facts, s, failed, phase).1 is Do,
        run_next(facts, s, failed, phase).0.step != Step::Rollback,
    ensures
        run_next(facts, s, failed, phase).0.stage == Stage::Indexing,
        ahead(run_next(facts, s, failed, phase).0).contains(step) == is_step_due(
            facts,
            s.resume,
            step,
        ),
        is_ordered(ahead(run_next(facts, s, failed, phase).0), 0, 26),
{
    let n = run_next(facts, s, failed, phase).0;
    let plan = index_plan(facts, s.resume);
    law_due_steps_are_planned(facts, s.resume, step);
    law_run_stays_orderly(facts, s, failed, phase);
    assert(ahead(s)[0] == s.step);
    assert(has_at(ahead(s), 0, s.step));
    assert(order(ahead(s)[0]) < 10);
    assert(ahead(n) =~= plan);
}

/// A run begins by preparing the tables and reading the checkpoint.
pub proof fn law_first_steps()
    ensures
        first_state().stage == Stage::Opening,
        ahead(first_state()) == seq![Step::EnsureTables, Step::ReadCheckpoint],
        first_state().resume is None,
        first_state().checkpoint is None,
        !first_state().bulk_loading,
        !first_state().keys_deferred,
{
    assert(ahead(first_state()) =~= seq![Step::EnsureTables, Step::ReadCheckpoint]);
}

proof fn lemma_still_ahead(facts: RunFacts, s: RunState, failed: bool, phase: Option<Phase>, step: Step)
    requires
        is_sound(facts.flags, facts.quality_child, s),
        is_orderly(s),
        is_live(s.stage),
        ahead(s).contains(step),
        run_next(facts, s, failed, phase).0.stage != Stage::Aborted,
        run_next(facts, s, failed, phase).0.step != Step::Rollback || !is_live(
            run_next(facts, s, failed, phase).0.stage,
        ),
    ensures
        step == s.step || (is_live(run_next(facts, s, failed, phase).0.stage) && ahead(
            run_next(facts, s, failed, phase).0,
        ).contains(step)),
{
    let a = ahead(s);
    let n = run_next(facts, s, failed, phase).0;
    assert(a[0] == s.step);
    assert(has_at(a, 0, s.step));
    let i = choose|i: int| 0 <= i < a.len() && a[i] == step;
    if i > 0 {
        assert(s.todo[i - 1] == step);
        if s.stage == Stage::Opening {
            assert(a == seq![Step::EnsureTables, Step::ReadCheckpoint] || a == seq![
                Step::ReadCheckpoint,
            ]);
        }
        assert(s.step != Step::ReadCheckpoint);
        let undo = restore_plan(s.bulk_loading, s.keys_deferred);
        if s.step == Step::IndexCode {
            lemma_contains_add(undo, s.todo, step);
            assert(ahead(n) =~= undo + s.todo);
        } else {
            assert(ahead(n) =~= s.todo);
        }
    }
}

/// Where a run is complete, every step that was once before it has been taken.
pub proof fn law_planned_steps_are_taken(
    flags: RunFlags,
    quality_child: bool,
    ends: Seq<StepEnd>,
    k: int,
    step: Step,
)
    requires
        is_one_run(flags, quality_child, ends),
        0 <= k <= ends.len(),
        is_live(run_after(ends.take(k)).stage),
        ahead(run_after(ends.take(k))).contains(step),
    ensures
        run_after(ends).stage == Stage::Finished ==> steps_taken(ends).contains(step),
        is_live(run_after(ends).stage) && run_after(ends).step != Step::Rollback ==> steps_taken(
            ends,
        ).contains(step) || ahead(run_after(ends)).contains(step),
    decreases ends.len(),
{
    if k == ends.len() {
        assert(ends.take(k) =~= ends);
    } else {
        let before = ends.drop_last();
        let s = run_after(before);
        let end = ends.last();
        assert(is_one_run(flags, quality_child, before)) by {
            assert forall|i: int| 0 <= i < before.len() implies (#[trigger] before[i]).facts.flags
                == flags && before[i].facts.quality_child == quality_child by {
                assert(before[i] == ends[i]);
            }
        }
        assert(ends[ends.len() - 1] == end);
        assert(before.take(k) =~= ends.take(k));
        law_planned_steps_are_taken(flags, quality_child, before, k, step);
        law_steps_are_taken_in_order(flags, quality_child, before);
        let taken = steps_taken(before);
        if taken.contains(step) {
            let i = choose|i: int| 0 <= i < taken.len() && taken[i] == step;
            assert(steps_taken(ends)[i] == step);
        } else if is_live(s.stage) && s.step != Step::Rollback {
            let n = run_after(ends);
            if n.stage == Stage::Finished || (is_live(n.stage) && n.step != Step::Rollback) {
                lemma_still_ahead(end.facts, s, end.failed, end.phase, step);
                assert(steps_taken(ends)[taken.len() as int] == s.step);
            }
        }
    }
}

/// A complete run has taken every step that was due once its tables were filled: it
/// has projected the documents of each table that holds any, linked mentions where it
/// was to, indexed the code and distilled.
pub proof fn law_complete_run_has_done_what_is_due(
    flags: RunFlags,
    quality_child: bool,
    ends: Seq<StepEnd>,
    k: int,
    step: Step,
)
    requires
        is_one_run(flags, quality_child, ends),
        0 <= k < ends.len(),
        run_after(ends.take(k)).stage == Stage::Sources,
        run_after(ends.take(k)).todo.len() == 0,
        run_after(ends.take(k + 1)).stage == Stage::Indexing,
        run_after(ends).stage == Stage::Finished,
        is_step_due(ends[k].facts, run_after(ends.take(k)).resume, step),
    ensures
        steps_taken(ends).contains(step),
{
    let before = ends.take(k);
    let after = ends.take(k + 1);
    let s = run_after(before);
    let end = ends[k];
    assert(after.drop_last() =~= before);
    assert(after.last() == end);
    assert(is_one_run(flags, quality_child, before)) by {
        assert forall|i: int| 0 <= i < before.len() implies (#[trigger] before[i]).facts.flags
            == flags && before[i].facts.quality_child == quality_child by {
            assert(before[i] == ends[i]);
        }
    }
    law_steps_are_taken_in_order(flags, quality_child, before);
    assert(ahead(s)[0] == s.step);
    assert(order(ahead(s)[0]) < 10);
    law_index_steps_follow(end.facts, s, end.failed, end.phase, step);
    law_planned_steps_are_taken(flags, quality_child, ends, k + 1, step);
}

/// Whether each of the steps is due, or undoes a relaxation.
spec fn is_due_or_undo(facts: RunFacts, resume: Option<Phase>, steps: Seq<Step>) -> bool {
    forall|i: int|
        0 <= i < steps.len() ==> is_step_due(facts, resume, #[trigger] steps[i]) || steps[i]
            == Step::DisableBulkLoad || steps[i] == Step::ResetForeignKeys
}

proof fn lemma_only_due_ahead(
    due: RunFacts,
    resume: Option<Phase>,
    facts: RunFacts,
    s: RunState,
    failed: bool,
    phase: Option<Phase>,
)
    requires
        s.stage == Stage::Indexing,
        is_due_or_undo(due, resume, ahead(s)),
    ensures
        ({
            let n = run_next(facts, s, failed, phase).0;
            &&& n.stage != Stage::Opening && n.stage != Stage::Sources
            &&& is_live(n.stage) ==> is_due_or_undo(due, resume, ahead(n))
        }),
{
    let a = ahead(s);
    let n = run_next(facts, s, failed, phase).0;
    assert(a[0] == s.step);
    assert(s.step != Step::ReadCheckpoint && s.step != Step::Walk && s.step != Step::Commit);
    assert forall|i: int| 0 <= i < s.todo.len() implies is_step_due(due, resume, #[trigger] s.todo[i])
        || s.todo[i] == Step::DisableBulkLoad || s.todo[i] == Step::ResetForeignKeys by {
        assert(a[i + 1] == s.todo[i]);
    }
    if is_live(n.stage) && s.step != Step::Rollback {
        if s.step == Step::IndexCode {
            let undo = restore_plan(s.bulk_loading, s.keys_deferred);
            let steps = undo + s.todo;
            assert(ahead(n) =~= steps);
            assert forall|i: int| 0 <= i < steps.len() implies is_step_due(
                due,
                resume,
                #[trigger] steps[i],
            ) || steps[i] == Step::DisableBulkLoad || steps[i] == Step::ResetForeignKeys by {
                if i < undo.len() {
                    assert(steps[i] == undo[i]);
                } else {
                    assert(steps[i] == s.todo[i - undo.len()]);
                }
            }
        } else {
            assert(ahead(n) =~= s.todo);
        }
    }
}

proof fn lemma_only_due_taken(flags: RunFlags, quality_child: bool, ends: Seq<StepEnd>, k: int)
    requires
        is_one_run(flags, quality_child, ends),
        0 <= k < ends.len(),
        run_after(ends.take(k)).stage == Stage::Sources,
        run_after(ends.take(k)).todo.len() == 0,
        run_after(ends.take(k + 1)).stage == Stage::Indexing,
    ensures
        ({
            let facts = ends[k].facts;
            let resume = run_after(ends.take(k)).resume;
            let n = run_after(ends);
            &&& n.stage != Stage::Opening && n.stage != Stage::Sources
            &&& is_live(n.stage) ==> is_due_or_undo(facts, resume, ahead(n))
            &&& forall|i: int|
                0 <= i < steps_taken(ends).len() ==> order(#[trigger] steps_taken(ends)[i]) < 10
                    || is_step_due(facts, resume, steps_taken(ends)[i]) || steps_taken(ends)[i]
                    == Step::DisableBulkLoad || steps_taken(ends)[i] == Step::ResetForeignKeys
        }),
    decreases ends.len(),
{
    let facts = ends[k].facts;
    let resume = run_after(ends.take(k)).resume;
    let before = ends.drop_last();
    let s = run_after(before);
    let end = ends.last();
    let taken = steps_taken(before);
    assert(is_one_run(flags, quality_child, before)) by {
        assert forall|i: int| 0 <= i < before.len() implies (#[trigger] before[i]).facts.flags
            == flags && before[i].facts.quality_child == quality_child by {
            assert(before[i] == ends[i]);
        }
    }
    assert(ends[ends.len() - 1] == end);
    if k == ends.len() - 1 {
        assert(ends.take(k) =~= before);
        assert(ends.take(k + 1) =~= ends);
        law_steps_are_taken_in_order(flags, quality_child, before);
        assert(ahead(s)[0] == s.step);
        assert(order(ahead(s)[0]) < 10);
        let n = run_after(ends);
        assert forall|i: int| 0 <= i < ahead(n).len() implies is_step_due(
            facts,
            resume,
            #[trigger] ahead(n)[i],
        ) by {
            law_index_steps_follow(facts, s, end.failed, end.phase, ahead(n)[i]);
            assert(ahead(n).contains(ahead(n)[i]));
        }
        assert forall|i: int| 0 <= i < steps_taken(ends).len() implies order(
            #[trigger] steps_taken(ends)[i],
        ) < 10 by {
            if i < taken.len() {
                assert(steps_taken(ends)[i] == taken[i]);
                assert(order(taken[i]) < order(s.step));
            }
        }
    } else {
        assert(before.take(k) =~= ends.take(k));
        assert(before.take(k + 1) =~= ends.take(k + 1));
        assert(before[k] == ends[k]);
        lemma_only_due_taken(flags, quality_child, before, k);
        if is_live(s.stage) {
            lemma_only_due_ahead(facts, resume, end.facts, s, end.failed, end.phase);
            assert(ahead(s)[0] == s.step);
        }
        assert forall|i: int| 0 <= i < steps_taken(ends).len() implies order(
            #[trigger] steps_taken(ends)[i],
        ) < 10 || is_step_due(facts, resume, steps_taken(ends)[i]) || steps_taken(ends)[i]
            == Step::DisableBulkLoad || steps_taken(ends)[i] == Step::ResetForeignKeys by {
            if i < taken.len() {
                assert(steps_taken(ends)[i] == taken[i]);
            }
        }
    }
}

/// A complete run projects the documents of a table if and only if there are any,
/// whatever the other table holds; it links mentions if and only if there are
/// documents in either and the linker is not left out; it indexes code if and only if
/// there are sources and the code graph is not left out; and it distills if and only
/// if anything is stored. Only what the resumed run had completed is left out.
pub proof fn law_what_a_complete_run_does(
    flags: RunFlags,
    ends: Seq<StepEnd>,
    k: int,
)
    requires
        is_one_run(flags, false, ends),
        0 <= k < ends.len(),
        run_after(ends.take(k)).stage == Stage::Sources,
        run_after(ends.take(k)).todo.len() == 0,
        run_after(ends.take(k + 1)).stage == Stage::Indexing,
        run_after(ends).stage == Stage::Finished,
    ensures
        ({
            let done = steps_taken(ends);
            let facts = ends[k].facts;
            let resume = run_after(ends.take(k)).resume;
            let docs_due = resume != Some(Phase::Distill);
            let code_due = docs_due && resume != Some(Phase::GraphRag);
            let stored = facts.sources || facts.row_docs || facts.md_docs;
            &&& done.contains(Step::IngestDocs(Table::Docs)) == (docs_due && facts.row_docs)
            &&& done.contains(Step::IngestDocs(Table::DocsMd)) == (docs_due && facts.md_docs)
            &&& done.contains(Step::LinkMentions) == (docs_due && (facts.row_docs
                || facts.md_docs) && !flags.skip_linker)
            &&& done.contains(Step::IndexCode) == (code_due && facts.sources
                && !flags.skip_code_graph)
            &&& done.contains(Step::BuildSymbolCards) == stored
            &&& done.contains(Step::BuildRepomapCards) == stored
            &&& done.contains(Step::DistillWithModel) == (stored && flags.llm_distill)
            &&& done.contains(Step::ClearCheckpoint)
        }),
{
    let facts = ends[k].facts;
    let resume = run_after(ends.take(k)).resume;
    assert(facts.flags == flags && !facts.quality_child);
    lemma_only_due_taken(flags, false, ends, k);
    lemma_done_is_due(flags, ends, k, Step::IngestDocs(Table::Docs));
    lemma_done_is_due(flags, ends, k, Step::IngestDocs(Table::DocsMd));
    lemma_done_is_due(flags, ends, k, Step::LinkMentions);
    lemma_done_is_due(flags, ends, k, Step::IndexCode);
    lemma_done_is_due(flags, ends, k, Step::BuildSymbolCards);
    lemma_done_is_due(flags, ends, k, Step::BuildRepomapCards);
    lemma_done_is_due(flags, ends, k, Step::DistillWithModel);
    lemma_done_is_due(flags, ends, k, Step::ClearCheckpoint);
}

proof fn lemma_done_is_due(flags: RunFlags, ends: Seq<StepEnd>, k: int, step: Step)
    requires
        is_one_run(flags, false, ends),
        0 <= k < ends.len(),
        run_after(ends.take(k)).stage == Stage::Sources,
        run_after(ends.take(k)).todo.len() == 0,
        run_after(ends.take(k + 1)).stage == Stage::Indexing,
        run_after(ends).stage == Stage::Finished,
        order(step) >= 10,
        step != Step::DisableBulkLoad,
        step != Step::ResetForeignKeys,
    ensures
        steps_taken(ends).contains(step) == is_step_due(
            ends[k].facts,
            run_after(ends.take(k)).resume,
            step,
        ),
{
    lemma_only_due_taken(flags, false, ends, k);
    if is_step_due(ends[k].facts, run_after(ends.take(k)).resume, step) {
        law_complete_run_has_done_what_is_due(flags, false, ends, k, step);
    }
    if steps_taken(ends).contains(step) {
        let i = choose|i: int| 0 <= i < steps_taken(ends).len() && steps_taken(ends)[i] == step;
        assert(order(steps_taken(ends)[i]) >= 10);
    }
}

/// A run stands where its parts say.
pub proof fn law_run_state<C, D, L>(run: IngestRun<C, D, L>)
    ensures
        run.state().stage == run.stage,
        run.state().step == run.step,
        run.state().todo == run.todo@,
        run.state().resume == run.resume,
        run.state().checkpoint == run.checkpoint,
        run.state().bulk_loading == run.bulk_loading,
        run.state().keys_deferred == run.keys_deferred,
{
}

/// A checkpoint that was read tells its phase, and a pass over cards what it did; one
/// that failed did nothing.
pub proof fn law_outcomes<C, D, L>(
    phase: Option<Phase>,
    stats: DistillStats,
    outcome: Outcome<C, D, L>,
)
    ensures
        phase_of(Outcome::<C, D, L>::Checkpoint(phase)) == phase,
        !(outcome is Checkpoint) ==> phase_of(outcome) is None,
        cards_of(Outcome::<C, D, L>::Cards(stats)) == stats,
        !(outcome is Cards) ==> cards_of(outcome) == (DistillStats {
            symbols_scanned: 0,
            symbols_written: 0,
            symbols_unchanged: 0,
            files_written: 0,
            pagerank_iters: 0,
            pagerank_converged: false,
        }),
{
}

/// A run takes steps until it is complete or has failed.
pub proof fn law_stages(stage: Stage)
    ensures
        is_live(stage) == (stage == Stage::Opening || stage == Stage::Sources || stage
            == Stage::Indexing),
{
}

/// A run that has ended stays as it is.
pub proof fn law_ended_run_stays(facts: RunFacts, s: RunState, failed: bool, phase: Option<Phase>)
    requires
        s.stage == Stage::Finished || s.stage == Stage::Aborted,
    ensures
        run_next(facts, s, failed, phase).0 == s,
        run_next(facts, s, failed, phase).1 == if s.stage == Stage::Finished {
            Progress::Done
        } else {
            Progress::Failed
        },
{
}

/// A run that goes on with a step has it at hand, one that is done is complete, and
/// one that has failed is over.
pub proof fn law_progress(facts: RunFacts, s: RunState, failed: bool, phase: Option<Phase>)
    ensures
        ({
            let n = run_next(facts, s, failed, phase);
            &&& n.1 is Do == is_live(n.0.stage)
            &&& n.1 matches Progress::Do(step) ==> n.0.step == step
            &&& n.1 == Progress::Done <==> n.0.stage == Stage::Finished
            &&& n.1 == Progress::Failed <==> n.0.stage == Stage::Aborted
        }),
{
}

/// Options for the language model are the same where each of them is.
pub proof fn law_same_llm_options(a: LlmDistillOptions, b: LlmDistillOptions)
    ensures
        same_llm_options(a, b) == (a.endpoint@ == b.endpoint@ && a.model@ == b.model@
            && a.concurrency == b.concurrency),
{
}

/// The code index is followed, first of all, by what undoes the relaxations that were
/// turned on for it, and by nothing else that was not planned.
pub proof fn law_relaxations_are_undone(
    facts: RunFacts,
    s: RunState,
    failed: bool,
    phase: Option<Phase>,
)
    requires
        is_live(s.stage),
        s.step == Step::IndexCode,
        run_next(facts, s, failed, phase).1 is Do,
    ensures
        ({
            let b = ahead(run_next(facts, s, failed, phase).0);
            &&& s.bulk_loading && s.keys_deferred ==> b == seq![
                Step::DisableBulkLoad,
                Step::ResetForeignKeys,
            ] + s.todo
            &&& s.bulk_loading && !s.keys_deferred ==> b == seq![Step::DisableBulkLoad] + s.todo
            &&& !s.bulk_loading && s.keys_deferred ==> b == seq![Step::ResetForeignKeys] + s.todo
            &&& !s.bulk_loading && !s.keys_deferred ==> b == s.todo
        }),
{
    let b = ahead(run_next(facts, s, failed, phase).0);
    let undo = restore_plan(s.bulk_loading, s.keys_deferred);
    assert(b =~= undo + s.todo);
    assert(s.bulk_loading && s.keys_deferred ==> undo =~= seq![
        Step::DisableBulkLoad,
        Step::ResetForeignKeys,
    ]);
    assert(s.bulk_loading && !s.keys_deferred ==> undo =~= seq![Step::DisableBulkLoad]);
    assert(!s.bulk_loading && s.keys_deferred ==> undo =~= seq![Step::ResetForeignKeys]);
    assert(!s.bulk_loading && !s.keys_deferred ==> b =~= s.todo);
}

/// A relaxation is on once it was turned on with success, until it is turned off.
pub proof fn law_relaxations_are_noted(
    facts: RunFacts,
    s: RunState,
    failed: bool,
    phase: Option<Phase>,
)
    requires
        is_live(s.stage),
        run_next(facts, s, failed, phase).1 != Progress::Failed,
    ensures
        ({
            let n = run_next(facts, s, failed, phase).0;
            &&& s.step == Step::EnableBulkLoad ==> n.bulk_loading == !failed
            &&& s.step == Step::DisableBulkLoad ==> !n.bulk_loading
            &&& s.step != Step::EnableBulkLoad && s.step != Step::DisableBulkLoad
                ==> n.bulk_loading == s.bulk_loading
            &&& s.step == Step::DeferForeignKeys ==> n.keys_deferred == !failed
            &&& s.step == Step::ResetForeignKeys ==> !n.keys_deferred
            &&& s.step != Step::DeferForeignKeys && s.step != Step::ResetForeignKeys
                ==> n.keys_deferred == s.keys_deferred
        }),
{
}

/// A run fails with the steps that prepare it, that write its checkpoint and that walk
/// the tree, and with no other: a count, a pass over code or documents, a relaxation
/// or the removal of the checkpoint that fails leaves it on the same way.
pub proof fn law_what_a_run_fails_with(facts: RunFacts, s: RunState, phase: Option<Phase>)
    requires
        is_live(s.stage),
    ensures
        ({
            let bad = run_next(facts, s, true, phase).1;
            let good = run_next(facts, s, false, phase).1;
            &&& (s.step == Step::EnsureTables || s.step == Step::ReadCheckpoint || s.step
                == Step::BeginCheckpoint || s.step == Step::BeginTransaction
                || s.step is AdvanceCheckpoint || s.step == Step::Rollback) ==> bad
                == Progress::Failed
            &&& (s.step == Step::Walk || s.step == Step::Commit) ==> bad == Progress::Do(
                Step::Rollback,
            )
            &&& (s.step is CountRows || s.step is IngestDocs || s.step == Step::EnableBulkLoad
                || s.step == Step::DeferForeignKeys || s.step == Step::IndexCode || s.step
                == Step::DisableBulkLoad || s.step == Step::ResetForeignKeys || s.step
                == Step::LinkMentions || s.step == Step::BuildSymbolCards || s.step
                == Step::BuildRepomapCards || s.step == Step::DistillWithModel || s.step
                == Step::ClearCheckpoint) ==> bad == good && good != Progress::Failed
            &&& s.step != Step::Rollback ==> good != Progress::Failed
        }),
{
}

/// The steps come one after another: a run that goes on takes the next of the steps
/// before it, unless it has just read the checkpoint, filled the tables or indexed the
/// code.
pub proof fn law_steps_follow_one_another(
    facts: RunFacts,
    s: RunState,
    failed: bool,
    phase: Option<Phase>,
)
    requires
        is_live(s.stage),
        s.todo.len() > 0,
        s.step != Step::ReadCheckpoint,
        s.step != Step::IndexCode,
        s.step != Step::Rollback,
        run_next(facts, s, failed, phase).1 is Do,
        run_next(facts, s, failed, phase).0.step != Step::Rollback || !failed,
    ensures
        ahead(run_next(facts, s, failed, phase).0) == s.todo,
        run_next(facts, s, failed, phase).1 == Progress::Do(s.todo[0]),
        run_next(facts, s, failed, phase).0.stage == s.stage,
{
    assert(ahead(run_next(facts, s, failed, phase).0) =~= s.todo);
}

/// The checkpoint names what was last written to it, and nothing once it was removed.
pub proof fn law_checkpoint_is_what_was_written(
    facts: RunFacts,
    s: RunState,
    phase: Option<Phase>,
    written: Phase,
)
    requires
        is_live(s.stage),
    ensures
        ({
            let n = run_next(facts, s, false, phase).0;
            &&& s.step == Step::BeginCheckpoint ==> n.checkpoint == Some(Phase::Walk)
            &&& s.step == Step::AdvanceCheckpoint(written) ==> n.checkpoint == Some(written)
            &&& s.step == Step::ClearCheckpoint ==> n.checkpoint is None
            &&& s.step != Step::BeginCheckpoint && !(s.step is AdvanceCheckpoint) && s.step
                != Step::ClearCheckpoint && s.step != Step::ReadCheckpoint ==> n.checkpoint
                == s.checkpoint
        }),
        s.step != Step::ReadCheckpoint ==> run_next(facts, s, true, phase).0.checkpoint
            == s.checkpoint,
{
}

/// What is stored decides over the steps: sources by the count of code, documents by
/// that of text and of binary documents, and Markdown documents by their own.
pub proof fn law_facts<C, D, L>(
    flags: RunFlags,
    quality_child: bool,
    summary: IngestSummary<C, D, L>,
)
    ensures
        ({
            let facts = facts_of(flags, quality_child, summary);
            &&& facts.flags == flags
            &&& facts.quality_child == quality_child
            &&& facts.sources == (summary.code_upserts != 0)
            &&& facts.row_docs == (summary.doc_upserts != 0 || summary.binary_upserts != 0)
            &&& facts.md_docs == (summary.md_doc_upserts != 0)
        }),
{
}

/// What a step reports is entered in the summary, in its own place and unchanged, and
/// every other entry stays as it was.
pub proof fn law_reports_are_entered<C, D, L>(
    summary: IngestSummary<C, D, L>,
    symbols: DistillStats,
    step: Step,
    outcome: Outcome<C, D, L>,
)
    ensures
        ({
            let r = recorded(summary, symbols, step, outcome);
            &&& r.files_seen == summary.files_seen
            &&& r.binary_upserts == summary.binary_upserts
            &&& r.skipped == summary.skipped
            &&& r.read_errors == summary.read_errors
            &&& r.read_error_samples == summary.read_error_samples
            &&& r.elapsed_ms == summary.elapsed_ms
            &&& match (step, outcome) {
                (Step::CountRows(Table::Src), Outcome::Rows(Some(cell))) => r.code_upserts
                    == count_of(cell),
                _ => r.code_upserts == summary.code_upserts,
            }
            &&& match (step, outcome) {
                (Step::CountRows(Table::Docs), Outcome::Rows(Some(cell))) => r.doc_upserts
                    == count_of(cell),
                _ => r.doc_upserts == summary.doc_upserts,
            }
            &&& match (step, outcome) {
                (Step::CountRows(Table::DocsMd), Outcome::Rows(Some(cell))) => r.md_doc_upserts
                    == count_of(cell),
                _ => r.md_doc_upserts == summary.md_doc_upserts,
            }
            &&& match (step, outcome) {
                (Step::IndexCode, Outcome::Indexed(stats)) => r.code == Some(stats),
                _ => r.code == summary.code,
            }
            &&& match (step, outcome) {
                (Step::IngestDocs(Table::Docs), Outcome::Ingested(stats)) => r.docs == Some(stats),
                _ => r.docs == summary.docs,
            }
            &&& match (step, outcome) {
                (Step::IngestDocs(Table::DocsMd), Outcome::Ingested(stats)) => r.docs_md == Some(
                    stats,
                ),
                _ => r.docs_md == summary.docs_md,
            }
            &&& match (step, outcome) {
                (Step::LinkMentions, Outcome::Linked(stats)) => r.links == Some(stats),
                _ => r.links == summary.links,
            }
            &&& match (step, outcome) {
                (Step::DistillWithModel, Outcome::Distilled(stats)) => r.llm_distill == Some(stats),
                _ => r.llm_distill == summary.llm_distill,
            }
            &&& match (step, outcome) {
                (Step::BuildRepomapCards, Outcome::Cards(files)) => r.distill == Some(
                    DistillSummary {
                        symbols_written: symbols.symbols_written,
                        symbols_unchanged: symbols.symbols_unchanged,
                        files_written: files.files_written,
                        pagerank_iters: files.pagerank_iters,
                        pagerank_converged: files.pagerank_converged,
                    },
                ),
                (Step::BuildRepomapCards, _) => r.distill == Some(
                    DistillSummary {
                        symbols_written: symbols.symbols_written,
                        symbols_unchanged: symbols.symbols_unchanged,
                        files_written: 0,
                        pagerank_iters: 0,
                        pagerank_converged: false,
                    },
                ),
                _ => r.distill == summary.distill,
            }
        }),
{
    lemma_counts_fit(outcome);
}

proof fn lemma_counts_fit<C, D, L>(outcome: Outcome<C, D, L>)
    ensures
        outcome matches Outcome::Rows(Some(cell)) ==> 0 <= count_of(cell) <= u64::MAX,
{
}

/// A count is the number in its cell; a negative one is taken as the 64-bit number with
/// the same remainder, and a cell of another type as zero.
pub proof fn law_counts(small: i32, large: i64)
    ensures
        small >= 0 ==> count_of(CountCell::Int4(small)) == small,
        large >= 0 ==> count_of(CountCell::Int8(large)) == large,
        small < 0 ==> count_of(CountCell::Int4(small)) - small == 0x1_0000_0000_0000_0000,
        large < 0 ==> count_of(CountCell::Int8(large)) - large == 0x1_0000_0000_0000_0000,
        count_of(CountCell::Other) == 0,
{
}

/// A pass over symbols that did nothing reports nothing.
pub proof fn law_no_distill()
    ensures
        no_distill().symbols_scanned == 0,
        no_distill().symbols_written == 0,
        no_distill().symbols_unchanged == 0,
        no_distill().files_written == 0,
        no_distill().pagerank_iters == 0,
        !no_distill().pagerank_converged,
{
}

/// The statements of the steps that are no more than one.
pub proof fn law_step_statements(step: Step)
    ensures
        step == Step::BeginTransaction ==> sql_of_step(step) == Some("BEGIN"@),
        step == Step::Commit ==> sql_of_step(step) == Some("COMMIT"@),
        step == Step::Rollback ==> sql_of_step(step) == Some("ROLLBACK"@),
        step == Step::EnableBulkLoad ==> sql_of_step(step) == Some("SET bulk_load_mode = true"@),
        step == Step::DisableBulkLoad ==> sql_of_step(step) == Some("SET bulk_load_mode = false"@),
        step == Step::DeferForeignKeys ==> sql_of_step(step) == Some(
            "SET fk_validation = deferred"@,
        ),
        step == Step::ResetForeignKeys ==> sql_of_step(step) == Some("RESET fk_validation"@),
        sql_of_step(step) is Some ==> (step == Step::BeginTransaction || step == Step::Commit || step
            == Step::Rollback || step == Step::EnableBulkLoad || step == Step::DisableBulkLoad
            || step == Step::DeferForeignKeys || step == Step::ResetForeignKeys),
{
}

/// The statements that create and fill the tables, with what a failure is reported
/// under.
pub proof fn law_table_statements(
    path: Seq<char>,
    content: Seq<char>,
    tag: Seq<char>,
    table: Table,
)
    ensures
        name_of_table(Table::Src) == "src"@,
        name_of_table(Table::Docs) == "docs"@,
        name_of_table(Table::DocsMd) == "docs_md"@,
        src_upsert(path, content, tag).params == seq![path, content, tag],
        doc_upsert(path, content, tag).params == seq![path, content, tag],
        doc_md_upsert(path, content).params == seq![path, content],
        src_upsert(path, content, tag).context == "upsert_src "@ + path,
        doc_upsert(path, content, tag).context == "upsert_doc "@ + path,
        doc_md_upsert(path, content).context == "upsert_doc_md "@ + path,
        src_upsert(path, content, tag).sql == "INSERT INTO src (path, content, lang) VALUES ($1, $2, $3) ON CONFLICT(path) DO UPDATE SET content = excluded.content, lang = excluded.lang"@,
        doc_upsert(path, content, tag).sql == "INSERT INTO docs (path, content, kind) VALUES ($1, $2, $3) ON CONFLICT(path) DO UPDATE SET content = excluded.content, kind = excluded.kind"@,
        doc_md_upsert(path, content).sql == "INSERT INTO docs_md (path, content, kind) VALUES ($1, $2, 'markdown') ON CONFLICT(path) DO UPDATE SET content = excluded.content, kind = excluded.kind"@,
        table_creation(Table::Src).sql == "CREATE TABLE IF NOT EXISTS src (\n            path     TEXT PRIMARY KEY,\n            content  TEXT,\n            lang     TEXT\n        )"@,
        table_creation(Table::Docs).sql == "CREATE TABLE IF NOT EXISTS docs (\n            path     TEXT PRIMARY KEY,\n            content  TEXT,\n            kind     TEXT\n        )"@,
        table_creation(Table::DocsMd).sql == "CREATE TABLE IF NOT EXISTS docs_md (\n            path     TEXT PRIMARY KEY,\n            content  TEXT,\n            kind     TEXT\n        )"@,
        table_creation(table).params.len() == 0,
        table_creation(table).context == "create "@ + name_of_table(table) + " table"@,
{
}

} // verus!
