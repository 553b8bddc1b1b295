//! The order in which a run takes its steps, and what an interrupted run leaves to
//! the next.

use crate::ingest::{
    code_plan, distill_plan, docs_plan, first_state, index_plan, is_due, is_fatal, is_live,
    is_rolled_back, noted, only, proceed, rank, restore_plan, run_next, sources_plan, taken_up, Phase,
    Progress, RunFacts, RunFlags, RunState, Stage, Step,
};
use crate::run_laws::{
    ahead, has_at, is_sound, law_complete_run_has_cleared, law_phases_run_under_their_checkpoint,
    law_run_begins_sound, law_run_stays_sound, law_walk_is_skipped_once_finished, phase_of_step,
};
use crate::store::Table;
use vstd::prelude::*;

verus! {

/// The place of a step in the order in which steps are taken. The last place is that
/// of a step that no run takes.
pub open spec fn order(step: Step) -> int {
    match step {
        Step::EnsureTables => 0,
        Step::ReadCheckpoint => 1,
        Step::CountRows(Table::Src) => 2,
        Step::CountRows(Table::Docs) => 3,
        Step::CountRows(Table::DocsMd) => 4,
        Step::BeginCheckpoint => 5,
        Step::BeginTransaction => 6,
        Step::Walk => 7,
        Step::Commit => 8,
        Step::Rollback => 9,
        Step::AdvanceCheckpoint(Phase::CodeIndex) => 11,
        Step::EnableBulkLoad => 12,
        Step::DeferForeignKeys => 13,
        Step::IndexCode => 14,
        Step::DisableBulkLoad => 15,
        Step::ResetForeignKeys => 16,
        Step::AdvanceCheckpoint(Phase::GraphRag) => 17,
        Step::IngestDocs(Table::Docs) => 18,
        Step::IngestDocs(Table::DocsMd) => 19,
        Step::LinkMentions => 20,
        Step::AdvanceCheckpoint(Phase::Distill) => 21,
        Step::BuildSymbolCards => 22,
        Step::BuildRepomapCards => 23,
        Step::DistillWithModel => 24,
        Step::ClearCheckpoint => 25,
        _ => 26,
    }
}

/// Whether steps come in their order, each after the one before it, from place `low`
/// up to but not at place `high`.
pub open spec fn is_ordered(steps: Seq<Step>, low: int, high: int) -> bool {
    &&& forall|i: int| 0 <= i < steps.len() ==> low <= #[trigger] order(steps[i]) < high
    &&& forall|i: int, j: int|
        0 <= i < j < steps.len() ==> #[trigger] order(steps[i]) < #[trigger] order(steps[j])
}

/// The phase that a step writes to the checkpoint.
pub open spec fn written(step: Step) -> Option<Phase> {
    match step {
        Step::BeginCheckpoint => Some(Phase::Walk),
        Step::AdvanceCheckpoint(phase) => Some(phase),
        _ => None,
    }
}

/// Whether each phase that the steps write to the checkpoint ranks at least as high
/// as given.
pub open spec fn writes_from(steps: Seq<Step>, low: int) -> bool {
    forall|i: int|
        0 <= i < steps.len() && (#[trigger] written(steps[i])) is Some ==> low <= rank(
            written(steps[i]),
        )
}

/// Whether each phase that the steps belong to ranks at least as high as given.
pub open spec fn phases_from(steps: Seq<Step>, low: int) -> bool {
    forall|i: int|
        0 <= i < steps.len() && (#[trigger] phase_of_step(steps[i])) is Some ==> low <= rank(
            phase_of_step(steps[i]),
        )
}

/// What holds of the order of a run's steps, at every step: those ahead come in
/// order, none of them takes the checkpoint back, and none belongs to a phase that
/// the resumed run had completed.
pub open spec fn is_orderly(s: RunState) -> bool {
    is_live(s.stage) ==> {
        &&& is_ordered(ahead(s), 0, 26)
        &&& writes_from(ahead(s), rank(s.checkpoint))
        &&& phases_from(ahead(s), rank(s.resume))
        &&& s.stage == Stage::Opening ==> s.resume is None && s.checkpoint is None
        &&& s.stage == Stage::Sources ==> {
            &&& is_ordered(ahead(s), 0, 10)
            &&& rank(s.checkpoint) <= 1 || rank(s.checkpoint) <= rank(s.resume)
        }
    }
}

proof fn lemma_ahead(s: RunState, steps: Seq<Step>)
    requires
        steps.len() > 0,
    ensures
        ahead(proceed(s, steps).0) == steps,
        proceed(s, steps).0.step == steps[0],
{
    assert(ahead(proceed(s, steps).0) =~= steps);
}

proof fn lemma_ordered_parts(a: Seq<Step>, b: Seq<Step>, low: int, middle: int, high: int)
    requires
        is_ordered(a, low, middle),
        is_ordered(b, middle, high),
        low <= middle <= high,
    ensures
        is_ordered(a + b, low, high),
{
    let c = a + b;
    assert forall|i: int| 0 <= i < c.len() implies low <= #[trigger] order(c[i]) < high by {
        if i < a.len() {
            assert(order(c[i]) == order(a[i]));
        } else {
            assert(order(c[i]) == order(b[i - a.len()]));
        }
    }
    assert forall|i: int, j: int| 0 <= i < j < c.len() implies #[trigger] order(c[i])
        < #[trigger] order(c[j]) by {
        if j < a.len() {
            assert(order(a[i]) < order(a[j]));
        } else if i >= a.len() {
            assert(order(b[i - a.len()]) < order(b[j - a.len()]));
        } else {
            assert(order(a[i]) < middle);
            assert(order(b[j - a.len()]) >= middle);
        }
    }
}

proof fn lemma_from_parts(a: Seq<Step>, b: Seq<Step>, low: int)
    requires
        writes_from(a, low),
        writes_from(b, low),
        phases_from(a, low),
        phases_from(b, low),
    ensures
        writes_from(a + b, low),
        phases_from(a + b, low),
{
    let c = a + b;
    assert forall|i: int| 0 <= i < c.len() && (#[trigger] written(c[i])) is Some implies low <= rank(
        written(c[i]),
    ) by {
        if i < a.len() {
            assert(written(c[i]) == written(a[i]));
        } else {
            assert(written(c[i]) == written(b[i - a.len()]));
        }
    }
    assert forall|i: int| 0 <= i < c.len() && (#[trigger] phase_of_step(c[i])) is Some implies low
        <= rank(phase_of_step(c[i])) by {
        if i < a.len() {
            assert(phase_of_step(c[i]) == phase_of_step(a[i]));
        } else {
            assert(phase_of_step(c[i]) == phase_of_step(b[i - a.len()]));
        }
    }
}

proof fn lemma_docs_order(flags: RunFlags, quality_child: bool, row_docs: bool, md_docs: bool)
    ensures
        is_ordered(docs_plan(flags, quality_child, row_docs, md_docs), 17, 21),
{
    if row_docs || md_docs {
        let a = only(!quality_child, Step::AdvanceCheckpoint(Phase::GraphRag));
        let b = only(row_docs, Step::IngestDocs(Table::Docs));
        let c = only(md_docs, Step::IngestDocs(Table::DocsMd));
        let d = only(!flags.skip_linker, Step::LinkMentions);
        lemma_ordered_parts(a, b, 17, 18, 19);
        lemma_ordered_parts(a + b, c, 17, 19, 20);
        lemma_ordered_parts(a + b + c, d, 17, 20, 21);
    }
}

/// The steps that follow once the tables are filled come in order, and belong to no
/// phase that the resumed run had completed.
proof fn lemma_index_order(facts: RunFacts, resume: Option<Phase>)
    ensures
        is_ordered(index_plan(facts, resume), 11, 26),
        writes_from(index_plan(facts, resume), 2),
        writes_from(index_plan(facts, resume), rank(resume)),
        phases_from(index_plan(facts, resume), rank(resume)),
{
    let flags = facts.flags;
    let child = facts.quality_child;
    let due = is_due(resume, Phase::GraphRag);
    let low = if rank(resume) > 2 {
        rank(resume)
    } else {
        2
    };
    let code = code_plan(flags, child, facts.sources && is_due(resume, Phase::CodeIndex));
    let docs = docs_plan(flags, child, facts.row_docs && due, facts.md_docs && due);
    let distill = distill_plan(flags, child, facts.sources || facts.row_docs || facts.md_docs);
    let end = only(!child, Step::ClearCheckpoint);
    assert(is_ordered(code, 11, 17)) by {
        let a = only(!child, Step::AdvanceCheckpoint(Phase::CodeIndex));
        let b = seq![Step::EnableBulkLoad, Step::DeferForeignKeys, Step::IndexCode];
        lemma_ordered_parts(a, b, 11, 12, 17);
    }
    lemma_docs_order(flags, child, facts.row_docs && due, facts.md_docs && due);
    assert(is_ordered(distill, 21, 25)) by {
        let a = seq![
            Step::AdvanceCheckpoint(Phase::Distill),
            Step::BuildSymbolCards,
            Step::BuildRepomapCards,
        ];
        lemma_ordered_parts(a, only(flags.llm_distill, Step::DistillWithModel), 21, 24, 25);
    }
    lemma_ordered_parts(code, docs, 11, 17, 21);
    lemma_ordered_parts(code + docs, distill, 11, 21, 25);
    lemma_ordered_parts(code + docs + distill, end, 11, 25, 26);
    lemma_places_tell(code, 11, 17, 2);
    lemma_places_tell(docs, 17, 21, 3);
    lemma_places_tell(distill, 21, 25, 4);
    lemma_places_tell(end, 25, 26, 4);
    lemma_from_parts(code, docs, low);
    lemma_from_parts(code + docs, distill, low);
    lemma_from_parts(code + docs + distill, end, low);
}

/// Steps at the places of a phase belong to it and write no other.
proof fn lemma_places_tell(steps: Seq<Step>, low: int, high: int, phase: int)
    requires
        is_ordered(steps, low, high),
        (low, high, phase) == (11int, 17int, 2int) || (low, high, phase) == (17int, 21int, 3int) || (
        low,
        high,
        phase,
    ) == (21int, 25int, 4int) || (low, high, phase) == (25int, 26int, 4int),
    ensures
        writes_from(steps, phase),
        phases_from(steps, phase),
{
    assert forall|i: int| 0 <= i < steps.len() && (#[trigger] written(steps[i])) is Some implies phase
        <= rank(written(steps[i])) by {
        assert(low <= order(steps[i]) < high);
    }
    assert forall|i: int|
        0 <= i < steps.len() && (#[trigger] phase_of_step(steps[i])) is Some implies phase <= rank(
        phase_of_step(steps[i]),
    ) by {
        assert(low <= order(steps[i]) < high);
    }
}

/// A run that is about to take its first step is orderly.
pub proof fn law_run_begins_orderly()
    ensures
        is_orderly(first_state()),
{
    assert(ahead(first_state()) =~= seq![Step::EnsureTables, Step::ReadCheckpoint]);
}

proof fn lemma_orderly_restore(flags: RunFlags, quality_child: bool, s: RunState)
    requires
        is_sound(flags, quality_child, s),
        is_orderly(s),
        is_live(s.stage),
        s.step == Step::IndexCode,
    ensures
        is_ordered(restore_plan(s.bulk_loading, s.keys_deferred) + s.todo, 15, 26),
        writes_from(restore_plan(s.bulk_loading, s.keys_deferred) + s.todo, rank(s.checkpoint)),
        phases_from(restore_plan(s.bulk_loading, s.keys_deferred) + s.todo, rank(s.resume)),
{
    let a = ahead(s);
    let undo = restore_plan(s.bulk_loading, s.keys_deferred);
    assert(has_at(a, 0, Step::IndexCode));
    assert(order(a[0]) == 14);
    assert(is_ordered(undo, 15, 17)) by {
        lemma_ordered_parts(
            only(s.bulk_loading, Step::DisableBulkLoad),
            only(s.keys_deferred, Step::ResetForeignKeys),
            15,
            16,
            17,
        );
    }
    assert forall|i: int| 0 <= i < s.todo.len() implies 17 <= #[trigger] order(s.todo[i]) < 26 by {
        assert(a[i + 1] == s.todo[i]);
        assert(order(a[0]) < order(a[i + 1]) < 26);
        assert(!has_at(a, i + 1, Step::DisableBulkLoad));
        assert(!has_at(a, i + 1, Step::ResetForeignKeys)) by {
            if has_at(a, i + 1, Step::ResetForeignKeys) {
                assert(has_at(a, 0, Step::DisableBulkLoad));
            }
        }
    }
    lemma_tail_ordered(s);
    lemma_ordered_parts(undo, s.todo, 15, 17, 26);
    assert(phase_of_step(a[0]) == Some(Phase::CodeIndex));
    assert(phases_from(undo, rank(s.resume)));
    assert(writes_from(undo, rank(s.checkpoint)));
    lemma_tail_from(s, rank(s.checkpoint), rank(s.resume));
    let c = undo + s.todo;
    assert forall|i: int| 0 <= i < c.len() && (#[trigger] written(c[i])) is Some implies rank(
        s.checkpoint,
    ) <= rank(written(c[i])) by {
        if i >= undo.len() {
            assert(c[i] == s.todo[i - undo.len()]);
            assert(written(s.todo[i - undo.len()]) is Some);
        } else {
            assert(c[i] == undo[i]);
        }
    }
    assert forall|i: int| 0 <= i < c.len() && (#[trigger] phase_of_step(c[i])) is Some implies rank(
        s.resume,
    ) <= rank(phase_of_step(c[i])) by {
        if i >= undo.len() {
            assert(c[i] == s.todo[i - undo.len()]);
            assert(phase_of_step(s.todo[i - undo.len()]) is Some);
        } else {
            assert(c[i] == undo[i]);
            assert(phase_of_step(undo[i]) is Some);
        }
    }
}

proof fn lemma_tail_ordered(s: RunState)
    ensures
        forall|i: int, j: int|
            #![trigger order(s.todo[i]), order(s.todo[j])]
            is_ordered(ahead(s), 0, 26) && 0 <= i < j < s.todo.len() ==> order(s.todo[i]) < order(
                s.todo[j],
            ),
        forall|i: int|
            is_ordered(ahead(s), 0, 26) && 0 <= i < s.todo.len() ==> order(s.step)
                < #[trigger] order(s.todo[i]) < 26,
{
    let a = ahead(s);
    assert forall|i: int| 0 <= i < s.todo.len() implies #[trigger] s.todo[i] == a[i + 1] by {}
    assert(a[0] == s.step);
    assert forall|i: int, j: int|
        #![trigger order(s.todo[i]), order(s.todo[j])]
        is_ordered(a, 0, 26) && 0 <= i < j < s.todo.len() implies order(s.todo[i]) < order(
        s.todo[j],
    ) by {
        assert(order(a[i + 1]) < order(a[j + 1]));
    }
    assert forall|i: int| is_ordered(a, 0, 26) && 0 <= i < s.todo.len() implies order(s.step)
        < #[trigger] order(s.todo[i]) < 26 by {
        assert(order(a[0]) < order(a[i + 1]));
    }
}

proof fn lemma_tail_from(s: RunState, write: int, phase: int)
    requires
        writes_from(ahead(s), write),
        phases_from(ahead(s), phase),
    ensures
        writes_from(s.todo, write),
        phases_from(s.todo, phase),
{
    let a = ahead(s);
    assert forall|i: int| 0 <= i < s.todo.len() && (#[trigger] written(s.todo[i])) is Some implies write
        <= rank(written(s.todo[i])) by {
        assert(written(a[i + 1]) is Some);
    }
    assert forall|i: int|
        0 <= i < s.todo.len() && (#[trigger] phase_of_step(s.todo[i])) is Some implies phase <= rank(
        phase_of_step(s.todo[i]),
    ) by {
        assert(phase_of_step(a[i + 1]) is Some);
    }
}

proof fn lemma_orderly_onward(flags: RunFlags, quality_child: bool, s: RunState, failed: bool)
    requires
        is_sound(flags, quality_child, s),
        is_orderly(s),
        is_live(s.stage),
        s.step != Step::ReadCheckpoint,
        s.step != Step::IndexCode,
        s.todo.len() > 0,
    ensures
        is_orderly(proceed(noted(s, failed), s.todo).0),
        order(proceed(noted(s, failed), s.todo).0.step) > order(s.step),
{
    let a = ahead(s);
    let n = proceed(noted(s, failed), s.todo).0;
    lemma_ahead(noted(s, failed), s.todo);
    lemma_tail_ordered(s);
    lemma_tail_from(s, rank(s.checkpoint), rank(s.resume));
    assert(a[0] == s.step);
    assert(order(a[0]) >= 0);
    assert(is_ordered(s.todo, 0, 26));
    assert forall|i: int| 0 <= i < s.todo.len() && (#[trigger] written(s.todo[i])) is Some implies rank(
        n.checkpoint,
    ) <= rank(written(s.todo[i])) by {
        assert(order(s.step) < order(s.todo[i]) < 26);
    }
    if s.stage == Stage::Sources {
        assert forall|i: int| 0 <= i < s.todo.len() implies #[trigger] order(s.todo[i]) < 10 by {
            assert(order(a[i + 1]) < 10);
        }
        assert(order(a[0]) < 10);
    }
    if s.stage == Stage::Opening {
        assert(a[0] == Step::EnsureTables || a[0] == Step::ReadCheckpoint);
    }
}

/// An orderly run stays so, however its steps end, and goes on to a step that comes
/// later in the order. With that, every run ends: there are 26 places.
pub proof fn law_run_stays_orderly(
    facts: RunFacts,
    s: RunState,
    failed: bool,
    phase: Option<Phase>,
)
    requires
        is_sound(facts.flags, facts.quality_child, s),
        is_orderly(s),
    ensures
        is_orderly(run_next(facts, s, failed, phase).0),
        run_next(facts, s, failed, phase).1 is Do ==> order(s.step) < order(
            run_next(facts, s, failed, phase).0.step,
        ) < 26,
{
    let n = run_next(facts, s, failed, phase).0;
    let a = ahead(s);
    let t = noted(s, failed);
    assert(a[0] == s.step);
    assert(has_at(a, 0, s.step));
    if !is_live(s.stage) || s.step == Step::Rollback {
    } else if failed && is_rolled_back(s.step) {
        assert(ahead(n) =~= seq![Step::Rollback]);
        assert(phase_of_step(a[0]) == Some(Phase::Walk));
        assert(order(a[0]) < 26);
        assert(s.stage != Stage::Opening);
    } else if failed && is_fatal(s.step) {
    } else if s.step == Step::ReadCheckpoint {
        let resume = taken_up(facts.quality_child, phase);
        let plan = sources_plan(facts.quality_child, resume);
        lemma_ahead(RunState { resume, checkpoint: resume, ..t }, plan);
        assert(is_ordered(plan, 2, 10));
        assert(n.stage == Stage::Sources);
    } else if s.step == Step::IndexCode {
        let steps = restore_plan(s.bulk_loading, s.keys_deferred) + s.todo;
        lemma_orderly_restore(facts.flags, facts.quality_child, s);
        assert(s.stage != Stage::Opening) by {
            if s.stage == Stage::Opening {
                assert(a[0] == Step::EnsureTables || a[0] == Step::ReadCheckpoint);
            }
        }
        assert(s.stage != Stage::Sources) by {
            if s.stage == Stage::Sources {
                assert(order(a[0]) < 10);
            }
        }
        if steps.len() > 0 {
            lemma_ahead(t, steps);
            assert(order(steps[0]) >= 15);
        }
    } else if s.stage == Stage::Sources && s.todo.len() == 0 {
        let plan = index_plan(facts, s.resume);
        lemma_index_order(facts, s.resume);
        assert(order(a[0]) < 10);
        if plan.len() > 0 {
            lemma_ahead(RunState { stage: Stage::Indexing, ..t }, plan);
            assert(order(plan[0]) >= 11);
            assert(rank(t.checkpoint) <= 2 || rank(t.checkpoint) <= rank(s.resume));
        }
    } else if s.todo.len() > 0 {
        lemma_orderly_onward(facts.flags, facts.quality_child, s, failed);
        lemma_ahead(t, s.todo);
        assert(order(ahead(n)[0]) < 26);
    }
}

/// Until it is removed, the checkpoint only moves forward through the phases.
pub proof fn law_checkpoint_moves_forward(
    facts: RunFacts,
    s: RunState,
    failed: bool,
    phase: Option<Phase>,
)
    requires
        is_sound(facts.flags, facts.quality_child, s),
        is_orderly(s),
        s.step != Step::ClearCheckpoint,
    ensures
        rank(s.checkpoint) <= rank(run_next(facts, s, failed, phase).0.checkpoint),
{
    let a = ahead(s);
    assert(a[0] == s.step);
    assert(has_at(a, 0, s.step));
    if is_live(s.stage) {
        assert(written(a[0]) is Some ==> rank(s.checkpoint) <= rank(written(a[0])));
    }
}

/// A run takes no step of a phase that the run which it resumes had completed.
pub proof fn law_completed_phases_are_skipped(s: RunState)
    requires
        is_orderly(s),
        is_live(s.stage),
        phase_of_step(s.step) is Some,
    ensures
        rank(s.resume) <= rank(phase_of_step(s.step)),
{
    assert(phase_of_step(ahead(s)[0]) is Some);
}

/// A run that is interrupted while it takes a step of a phase leaves a checkpoint
/// from which the next run resumes: that run walks the source tree again only where
/// the interrupted run had not finished the walk, and it takes no step of an earlier
/// phase than the interrupted one.
pub proof fn law_interrupted_run_is_resumed(
    flags: RunFlags,
    interrupted: RunState,
    facts: RunFacts,
    opening: RunState,
    later: RunState,
)
    requires
        is_sound(flags, false, interrupted),
        is_live(interrupted.stage),
        phase_of_step(interrupted.step) is Some,
        !facts.quality_child,
        is_live(opening.stage),
        opening.step == Step::ReadCheckpoint,
        is_orderly(later),
        is_live(later.stage),
        later.resume == interrupted.checkpoint,
    ensures
        run_next(facts, opening, false, interrupted.checkpoint).0.resume == interrupted.checkpoint,
        ahead(run_next(facts, opening, false, interrupted.checkpoint).0).contains(Step::Walk) == (
        phase_of_step(interrupted.step) == Some(Phase::Walk)),
        phase_of_step(later.step) is Some ==> rank(phase_of_step(interrupted.step)) <= rank(
            phase_of_step(later.step),
        ),
{
    law_phases_run_under_their_checkpoint(flags, interrupted);
    law_walk_is_skipped_once_finished(facts, opening, interrupted.checkpoint);
    if phase_of_step(later.step) is Some {
        law_completed_phases_are_skipped(later);
    }
}

/// How a step of a run ended: what decided over the steps then, whether it failed,
/// and what the checkpoint said, where that was read.
pub struct StepEnd {
    pub facts: RunFacts,
    pub failed: bool,
    pub phase: Option<Phase>,
}

/// Where a run stands after its first steps ended as given.
pub open spec fn run_after(ends: Seq<StepEnd>) -> RunState
    decreases ends.len(),
{
    if ends.len() == 0 {
        first_state()
    } else {
        let end = ends.last();
        run_next(end.facts, run_after(ends.drop_last()), end.failed, end.phase).0
    }
}

/// The steps that a run has taken once its first steps ended as given.
pub open spec fn steps_taken(ends: Seq<StepEnd>) -> Seq<Step>
    decreases ends.len(),
{
    if ends.len() == 0 {
        Seq::empty()
    } else if is_live(run_after(ends.drop_last()).stage) {
        steps_taken(ends.drop_last()).push(run_after(ends.drop_last()).step)
    } else {
        steps_taken(ends.drop_last())
    }
}

/// Whether the flags of a run, and whether it is a quality child, stay the same.
pub open spec fn is_one_run(flags: RunFlags, quality_child: bool, ends: Seq<StepEnd>) -> bool {
    forall|i: int|
        0 <= i < ends.len() ==> (#[trigger] ends[i]).facts.flags == flags
            && ends[i].facts.quality_child == quality_child
}

/// A run takes its steps in order and none of them twice.
pub proof fn law_steps_are_taken_in_order(flags: RunFlags, quality_child: bool, ends: Seq<StepEnd>)
    requires
        is_one_run(flags, quality_child, ends),
    ensures
        is_sound(flags, quality_child, run_after(ends)),
        is_orderly(run_after(ends)),
        is_ordered(steps_taken(ends), 0, 26),
        is_live(run_after(ends).stage) ==> is_ordered(
            steps_taken(ends),
            0,
            order(run_after(ends).step),
        ),
    decreases ends.len(),
{
    if ends.len() == 0 {
        law_run_begins_sound(flags, quality_child);
        law_run_begins_orderly();
    } else {
        let before = ends.drop_last();
        let s = run_after(before);
        let end = ends.last();
        assert(is_one_run(flags, quality_child, before)) by {
            assert forall|i: int| 0 <= i < before.len() implies (#[trigger] before[i]).facts.flags
                == flags && before[i].facts.quality_child == quality_child by {
                assert(before[i] == ends[i]);
            }
        }
        assert(ends[ends.len() - 1] == end);
        law_steps_are_taken_in_order(flags, quality_child, before);
        law_run_stays_sound(end.facts, s, end.failed, end.phase);
        law_run_stays_orderly(end.facts, s, end.failed, end.phase);
        if is_live(s.stage) {
            let taken = steps_taken(before);
            let now = seq![s.step];
            assert(order(ahead(s)[0]) == order(s.step));
            assert(steps_taken(ends) =~= taken + now);
            assert(is_ordered(now, order(s.step), order(s.step) + 1));
            lemma_ordered_parts(taken, now, 0, order(s.step), order(s.step) + 1);
        }
    }
}

/// The phases that a run writes to the checkpoint come in the order of the phases,
/// and none of them twice.
pub proof fn law_checkpoints_are_written_in_order(
    flags: RunFlags,
    quality_child: bool,
    ends: Seq<StepEnd>,
    i: int,
    j: int,
)
    requires
        is_one_run(flags, quality_child, ends),
        0 <= i < j < steps_taken(ends).len(),
        written(steps_taken(ends)[i]) is Some,
        written(steps_taken(ends)[j]) is Some,
    ensures
        rank(written(steps_taken(ends)[i])) < rank(written(steps_taken(ends)[j])),
{
    law_steps_are_taken_in_order(flags, quality_child, ends);
    let taken = steps_taken(ends);
    assert(order(taken[i]) < order(taken[j]) < 26);
}

/// A complete run that owns the checkpoint has removed it last of all; a run that
/// has failed has not tried to.
pub proof fn law_only_a_complete_run_clears(
    flags: RunFlags,
    quality_child: bool,
    ends: Seq<StepEnd>,
)
    requires
        is_one_run(flags, quality_child, ends),
    ensures
        run_after(ends).stage == Stage::Finished && !quality_child ==> steps_taken(ends).len() > 0
            && steps_taken(ends).last() == Step::ClearCheckpoint,
        run_after(ends).stage == Stage::Aborted ==> !steps_taken(ends).contains(
            Step::ClearCheckpoint,
        ),
    decreases ends.len(),
{
    if ends.len() > 0 {
        let before = ends.drop_last();
        let s = run_after(before);
        let end = ends.last();
        assert(is_one_run(flags, quality_child, before)) by {
            assert forall|i: int| 0 <= i < before.len() implies (#[trigger] before[i]).facts.flags
                == flags && before[i].facts.quality_child == quality_child by {
                assert(before[i] == ends[i]);
            }
        }
        assert(ends[ends.len() - 1] == end);
        law_only_a_complete_run_clears(flags, quality_child, before);
        law_steps_are_taken_in_order(flags, quality_child, before);
        if is_live(s.stage) {
            let progress = run_next(end.facts, s, end.failed, end.phase).1;
            let taken = steps_taken(before);
            if run_after(ends).stage == Stage::Finished && !quality_child {
                assert(progress == Progress::Done);
                law_complete_run_has_cleared(end.facts, s, end.failed, end.phase);
            }
            if run_after(ends).stage == Stage::Aborted {
                assert(s.step != Step::ClearCheckpoint);
                assert(order(ahead(s)[0]) < 26);
                assert forall|i: int| 0 <= i < taken.len() implies #[trigger] taken[i]
                    != Step::ClearCheckpoint by {
                    assert(order(taken[i]) < order(s.step));
                }
                let all = steps_taken(ends);
                assert forall|i: int| 0 <= i < all.len() implies #[trigger] all[i]
                    != Step::ClearCheckpoint by {
                    if i < taken.len() {
                        assert(all[i] == taken[i]);
                    }
                }
            }
        }
    }
}

} // verus!
