//! What holds of every run, whatever happens on the way.

use crate::ingest::{
    checkpoint_after, code_plan, distill_plan, docs_plan, first_state, index_plan, is_due, is_fatal,
    is_live, is_rolled_back, is_walk_finished, noted, only, proceed, recorded, restore_plan,
    run_next, sources_plan, taken_up, DistillStats, Outcome, Phase, Progress, RunFacts, RunFlags,
    RunState, Stage, Step,
};
use crate::store::Table;
use crate::summary::IngestSummary;
use vstd::prelude::*;

verus! {

/// The phase that a step belongs to.
pub open spec fn phase_of_step(step: Step) -> Option<Phase> {
    match step {
        Step::BeginTransaction | Step::Walk | Step::Commit | Step::Rollback => Some(Phase::Walk),
        Step::EnableBulkLoad
        | Step::DeferForeignKeys
        | Step::IndexCode
        | Step::DisableBulkLoad
        | Step::ResetForeignKeys => Some(Phase::CodeIndex),
        Step::IngestDocs(_) | Step::LinkMentions => Some(Phase::GraphRag),
        Step::BuildSymbolCards | Step::BuildRepomapCards | Step::DistillWithModel => Some(
            Phase::Distill,
        ),
        _ => None,
    }
}

/// Whether each of the steps that belongs to a phase is taken under a checkpoint
/// that names the phase, given what the checkpoint names before them.
pub open spec fn is_covered(checkpoint: Option<Phase>, steps: Seq<Step>) -> bool
    decreases steps.len(),
{
    steps.len() == 0 || {
        &&& phase_of_step(steps[0]) is Some ==> checkpoint == phase_of_step(steps[0])
        &&& is_covered(checkpoint_after(checkpoint, steps[0]), steps.drop_first())
    }
}

/// The step at hand and those after it.
pub open spec fn ahead(s: RunState) -> Seq<Step> {
    seq![s.step] + s.todo
}

/// Whether a run with these flags may take a step. A quality child stores nothing
/// from the source tree, writes no checkpoint and distills nothing.
pub open spec fn is_allowed(flags: RunFlags, quality_child: bool, step: Step) -> bool {
    &&& flags.skip_linker ==> step != Step::LinkMentions
    &&& flags.skip_code_graph ==> phase_of_step(step) != Some(Phase::CodeIndex)
    &&& !flags.llm_distill ==> step != Step::DistillWithModel
    &&& quality_child ==> {
        &&& phase_of_step(step) != Some(Phase::Walk)
        &&& phase_of_step(step) != Some(Phase::Distill)
        &&& step != Step::BeginCheckpoint
        &&& !(step is AdvanceCheckpoint)
        &&& step != Step::ClearCheckpoint
    }
}

/// Whether a step has a place among others.
pub open spec fn has_at(steps: Seq<Step>, i: int, step: Step) -> bool {
    0 <= i < steps.len() && steps[i] == step
}

/// Whether the relaxations for the code index are on only around it: they are
/// turned on right before, and what was turned on is turned off right after.
pub open spec fn is_fenced(s: RunState) -> bool {
    let a = ahead(s);
    &&& forall|i: int| #[trigger]
        has_at(a, i, Step::EnableBulkLoad) ==> has_at(a, i + 1, Step::DeferForeignKeys)
    &&& forall|i: int| #[trigger]
        has_at(a, i, Step::DeferForeignKeys) ==> has_at(a, i + 1, Step::IndexCode)
    &&& forall|i: int| #[trigger]
        has_at(a, i, Step::DeferForeignKeys) && i > 0 ==> has_at(a, i - 1, Step::EnableBulkLoad)
    &&& forall|i: int| #[trigger]
        has_at(a, i, Step::IndexCode) && i > 0 ==> has_at(a, i - 1, Step::DeferForeignKeys)
    &&& forall|i: int| #[trigger] has_at(a, i, Step::DisableBulkLoad) ==> i == 0
    &&& forall|i: int| #[trigger]
        has_at(a, i, Step::ResetForeignKeys) && i > 0 ==> i == 1 && has_at(
            a,
            0,
            Step::DisableBulkLoad,
        )
    &&& s.bulk_loading ==> s.step == Step::DeferForeignKeys || s.step == Step::IndexCode || s.step
        == Step::DisableBulkLoad
    &&& s.keys_deferred ==> s.step == Step::IndexCode || s.step == Step::ResetForeignKeys || (s.step
        == Step::DisableBulkLoad && has_at(a, 1, Step::ResetForeignKeys))
}

/// Whether the checkpoint is removed last, and not before the run has come to
/// index what is stored.
pub open spec fn is_cleared_last(quality_child: bool, s: RunState) -> bool {
    let a = ahead(s);
    &&& forall|i: int| #[trigger]
        has_at(a, i, Step::ClearCheckpoint) ==> s.stage == Stage::Indexing && i == a.len() - 1
    &&& s.stage == Stage::Indexing && !quality_child && s.step != Step::Rollback ==> a.last()
        == Step::ClearCheckpoint
}

/// What holds of a run at every step.
pub open spec fn is_sound(flags: RunFlags, quality_child: bool, s: RunState) -> bool {
    &&& is_live(s.stage) ==> {
        &&& !quality_child ==> is_covered(s.checkpoint, ahead(s))
        &&& forall|i: int|
            0 <= i < ahead(s).len() ==> #[trigger] is_allowed(flags, quality_child, ahead(s)[i])
        &&& is_fenced(s)
        &&& is_cleared_last(quality_child, s)
        &&& forall|i: int| #[trigger]
            has_at(ahead(s), i, Step::ReadCheckpoint) ==> s.stage == Stage::Opening
        &&& s.stage == Stage::Opening ==> ahead(s) == seq![
            Step::EnsureTables,
            Step::ReadCheckpoint,
        ] || ahead(s) == seq![Step::ReadCheckpoint]
        &&& s.stage == Stage::Sources ==> forall|i: int|
            0 <= i < ahead(s).len() ==> phase_of_step(#[trigger] ahead(s)[i]) != Some(
                Phase::CodeIndex,
            )
    }
    &&& !is_live(s.stage) ==> !s.bulk_loading && !s.keys_deferred
}

proof fn lemma_covered_parts(checkpoint: Option<Phase>, a: Seq<Step>, b: Seq<Step>, end: Option<Phase>)
    requires
        is_covered(checkpoint, a),
        end == checkpoint_through(checkpoint, a),
        is_covered(end, b),
    ensures
        is_covered(checkpoint, a + b),
    decreases a.len(),
{
    if a.len() == 0 {
        assert(a + b =~= b);
    } else {
        assert((a + b).drop_first() =~= a.drop_first() + b);
        lemma_covered_parts(checkpoint_after(checkpoint, a[0]), a.drop_first(), b, end);
    }
}

/// The phase that the checkpoint names after the given steps.
pub open spec fn checkpoint_through(checkpoint: Option<Phase>, steps: Seq<Step>) -> Option<Phase>
    decreases steps.len(),
{
    if steps.len() == 0 {
        checkpoint
    } else {
        checkpoint_through(checkpoint_after(checkpoint, steps[0]), steps.drop_first())
    }
}

/// Whether a step belongs to the document passes or to the distillation.
spec fn is_late_step(step: Step) -> bool {
    ||| step == Step::AdvanceCheckpoint(Phase::GraphRag)
    ||| step == Step::IngestDocs(Table::Docs)
    ||| step == Step::IngestDocs(Table::DocsMd)
    ||| step == Step::LinkMentions
    ||| step == Step::AdvanceCheckpoint(Phase::Distill)
    ||| step == Step::BuildSymbolCards
    ||| step == Step::BuildRepomapCards
    ||| step == Step::DistillWithModel
}

/// The steps of the document passes and of the distillation.
spec fn late_plan(
    flags: RunFlags,
    quality_child: bool,
    row_docs: bool,
    md_docs: bool,
    stored: bool,
) -> Seq<Step> {
    docs_plan(flags, quality_child, row_docs, md_docs) + distill_plan(flags, quality_child, stored)
}

proof fn lemma_late_plan(
    flags: RunFlags,
    quality_child: bool,
    row_docs: bool,
    md_docs: bool,
    stored: bool,
)
    ensures
        forall|i: int|
            #![trigger late_plan(flags, quality_child, row_docs, md_docs, stored)[i]]
            0 <= i < late_plan(flags, quality_child, row_docs, md_docs, stored).len()
                ==> is_late_step(late_plan(flags, quality_child, row_docs, md_docs, stored)[i])
                && is_allowed(
                flags,
                quality_child,
                late_plan(flags, quality_child, row_docs, md_docs, stored)[i],
            ),
{
    let docs = docs_plan(flags, quality_child, row_docs, md_docs);
    let distill = distill_plan(flags, quality_child, stored);
    let late = late_plan(flags, quality_child, row_docs, md_docs, stored);
    assert forall|i: int| 0 <= i < late.len() implies is_late_step(#[trigger] late[i])
        && is_allowed(flags, quality_child, late[i]) by {
        if i < docs.len() {
            assert(late[i] == docs[i]);
        } else {
            assert(late[i] == distill[i - docs.len()]);
        }
    }
}

proof fn lemma_late_covered(
    flags: RunFlags,
    row_docs: bool,
    md_docs: bool,
    stored: bool,
    checkpoint: Option<Phase>,
)
    ensures
        is_covered(checkpoint, late_plan(flags, false, row_docs, md_docs, stored)),
{
    let docs = docs_plan(flags, false, row_docs, md_docs);
    let distill = distill_plan(flags, false, stored);
    let between = checkpoint_through(checkpoint, docs);
    assert(is_covered(checkpoint, docs)) by {
        reveal_with_fuel(is_covered, 6);
    }
    assert(is_covered(between, distill)) by {
        reveal_with_fuel(is_covered, 6);
    }
    lemma_covered_parts(checkpoint, docs, distill, between);
}

proof fn lemma_clear_covered(checkpoint: Option<Phase>, steps: Seq<Step>)
    requires
        is_covered(checkpoint, steps),
    ensures
        is_covered(checkpoint, steps + seq![Step::ClearCheckpoint]),
{
    reveal_with_fuel(is_covered, 2);
    lemma_covered_parts(
        checkpoint,
        steps,
        seq![Step::ClearCheckpoint],
        checkpoint_through(checkpoint, steps),
    );
}

/// A run that is about to take its first step is sound.
pub proof fn law_run_begins_sound(flags: RunFlags, quality_child: bool)
    ensures
        is_sound(flags, quality_child, first_state()),
{
    let s = first_state();
    assert(ahead(s) =~= seq![Step::EnsureTables, Step::ReadCheckpoint]);
    reveal_with_fuel(is_covered, 3);
}

proof fn lemma_sound_sources(flags: RunFlags, quality_child: bool, s: RunState, phase: Option<Phase>)
    requires
        is_sound(flags, quality_child, s),
        is_live(s.stage),
        s.step == Step::ReadCheckpoint,
    ensures
        is_sound(
            flags,
            quality_child,
            proceed(
                RunState {
                    resume: taken_up(quality_child, phase),
                    checkpoint: taken_up(quality_child, phase),
                    ..noted(s, false)
                },
                sources_plan(quality_child, taken_up(quality_child, phase)),
            ).0,
        ),
{
    let resume = taken_up(quality_child, phase);
    let plan = sources_plan(quality_child, resume);
    let n = proceed(RunState { resume, checkpoint: resume, ..noted(s, false) }, plan).0;
    assert(ahead(n) =~= plan);
    reveal_with_fuel(is_covered, 5);
}

proof fn lemma_index_parts(facts: RunFacts, resume: Option<Phase>)
    ensures
        ({
            let child = facts.quality_child;
            let due = is_due(resume, Phase::GraphRag);
            index_plan(facts, resume) == code_plan(
                facts.flags,
                child,
                facts.sources && is_due(resume, Phase::CodeIndex),
            ) + late_plan(
                facts.flags,
                child,
                facts.row_docs && due,
                facts.md_docs && due,
                facts.sources || facts.row_docs || facts.md_docs,
            ) + only(!child, Step::ClearCheckpoint)
        }),
{
    let child = facts.quality_child;
    let due = is_due(resume, Phase::GraphRag);
    let a = code_plan(facts.flags, child, facts.sources && is_due(resume, Phase::CodeIndex));
    let b = docs_plan(facts.flags, child, facts.row_docs && due, facts.md_docs && due);
    let c = distill_plan(
        facts.flags,
        child,
        facts.sources || facts.row_docs || facts.md_docs,
    );
    assert(a + b + c =~= a + (b + c));
}

/// Where the steps of the code index and the removal of the checkpoint stand.
proof fn lemma_index_places(facts: RunFacts, resume: Option<Phase>)
    ensures
        ({
            let child = facts.quality_child;
            let plan = index_plan(facts, resume);
            let k: int = if child {
                0
            } else {
                1
            };
            &&& forall|i: int|
                0 <= i < plan.len() ==> #[trigger] is_allowed(facts.flags, child, plan[i])
            &&& forall|i: int| #[trigger]
                has_at(plan, i, Step::EnableBulkLoad) ==> i == k && has_at(
                    plan,
                    k + 1,
                    Step::DeferForeignKeys,
                )
            &&& forall|i: int| #[trigger]
                has_at(plan, i, Step::DeferForeignKeys) ==> i == k + 1 && has_at(
                    plan,
                    k,
                    Step::EnableBulkLoad,
                ) && has_at(plan, k + 2, Step::IndexCode)
            &&& forall|i: int| #[trigger]
                has_at(plan, i, Step::IndexCode) ==> i == k + 2 && has_at(
                    plan,
                    k + 1,
                    Step::DeferForeignKeys,
                )
            &&& forall|i: int| !(#[trigger] has_at(plan, i, Step::ReadCheckpoint))
            &&& forall|i: int| !(#[trigger] has_at(plan, i, Step::Walk))
            &&& forall|i: int| !(#[trigger] has_at(plan, i, Step::DisableBulkLoad))
            &&& forall|i: int| !(#[trigger] has_at(plan, i, Step::ResetForeignKeys))
            &&& forall|i: int| #[trigger]
                has_at(plan, i, Step::ClearCheckpoint) ==> !child && i == plan.len() - 1
            &&& !child ==> plan.len() > 0 && plan.last() == Step::ClearCheckpoint
        }),
{
    let flags = facts.flags;
    let child = facts.quality_child;
    let due = is_due(resume, Phase::GraphRag);
    let stored = facts.sources || facts.row_docs || facts.md_docs;
    let code = code_plan(flags, child, facts.sources && is_due(resume, Phase::CodeIndex));
    let docs = late_plan(flags, child, facts.row_docs && due, facts.md_docs && due, stored);
    let end = only(!child, Step::ClearCheckpoint);
    let plan = index_plan(facts, resume);
    lemma_index_parts(facts, resume);
    let c = code.len() as int;
    let d = docs.len() as int;
    lemma_late_plan(flags, child, facts.row_docs && due, facts.md_docs && due, stored);
    assert forall|i: int| 0 <= i < c implies #[trigger] plan[i] == code[i] by {}
    assert forall|i: int| c <= i < c + d implies #[trigger] plan[i] == docs[i - c] by {}
    assert forall|i: int| c + d <= i < plan.len() implies
        #[trigger] plan[i] == Step::ClearCheckpoint && !child
        && i == plan.len() - 1 by {
        assert(plan[i] == end[i - c - d]);
    }
    assert forall|i: int| c <= i < c + d implies is_late_step(#[trigger] plan[i]) && is_allowed(
        flags,
        child,
        plan[i],
    ) by {
        assert(plan[i] == docs[i - c]);
    }
    if c > 0 {
        let k: int = if child {
            0
        } else {
            1
        };
        assert(c == k + 3);
        assert(code[k] == Step::EnableBulkLoad);
        assert(code[k + 1] == Step::DeferForeignKeys);
        assert(code[k + 2] == Step::IndexCode);
        assert(k == 1 ==> code[0] == Step::AdvanceCheckpoint(Phase::CodeIndex));
        assert(has_at(plan, k, Step::EnableBulkLoad));
        assert(has_at(plan, k + 1, Step::DeferForeignKeys));
        assert(has_at(plan, k + 2, Step::IndexCode));
    }
    if !child {
        assert(plan[c + d] == Step::ClearCheckpoint);
    }
}

proof fn lemma_sound_index(facts: RunFacts, s: RunState, resume: Option<Phase>)
    requires
        s.stage == Stage::Indexing,
        !s.bulk_loading,
        !s.keys_deferred,
    ensures
        is_sound(facts.flags, facts.quality_child, proceed(s, index_plan(facts, resume)).0),
{
    let flags = facts.flags;
    let child = facts.quality_child;
    let due = is_due(resume, Phase::GraphRag);
    let stored = facts.sources || facts.row_docs || facts.md_docs;
    let code = code_plan(flags, child, facts.sources && is_due(resume, Phase::CodeIndex));
    let late = late_plan(flags, child, facts.row_docs && due, facts.md_docs && due, stored);
    let plan = index_plan(facts, resume);
    let n = proceed(s, plan).0;
    lemma_index_parts(facts, resume);
    if plan.len() > 0 {
        assert(ahead(n) =~= plan);
        if !child {
            lemma_late_covered(
                flags,
                facts.row_docs && due,
                facts.md_docs && due,
                stored,
                checkpoint_through(s.checkpoint, code),
            );
            assert(is_covered(s.checkpoint, code)) by {
                reveal_with_fuel(is_covered, 5);
            }
            lemma_covered_parts(s.checkpoint, code, late, checkpoint_through(s.checkpoint, code));
            lemma_clear_covered(s.checkpoint, code + late);
        }
        lemma_index_places(facts, resume);
        assert(is_fenced(n));
        assert(is_cleared_last(child, n));
    }
}

proof fn lemma_sound_onward(flags: RunFlags, quality_child: bool, s: RunState, failed: bool)
    requires
        is_sound(flags, quality_child, s),
        is_live(s.stage),
        s.step != Step::ReadCheckpoint,
        s.step != Step::IndexCode,
        s.step != Step::Rollback,
        failed ==> !is_fatal(s.step),
        s.stage == Stage::Sources ==> s.todo.len() > 0,
    ensures
        is_sound(flags, quality_child, proceed(noted(s, failed), s.todo).0),
{
    let a = ahead(s);
    let n = proceed(noted(s, failed), s.todo).0;
    assert(a.drop_first() =~= s.todo);
    if s.todo.len() > 0 {
        assert(ahead(n) =~= s.todo);
        assert forall|i: int| 0 <= i < s.todo.len() implies #[trigger] s.todo[i] == a[i + 1] by {}
        assert forall|i: int| 0 <= i < ahead(n).len() implies #[trigger] is_allowed(
            flags,
            quality_child,
            ahead(n)[i],
        ) by {
            assert(is_allowed(flags, quality_child, a[i + 1]));
        }
        let b = ahead(n);
        assert forall|i: int, step: Step| #[trigger] has_at(b, i, step) implies
            has_at(a, i + 1, step) by {}
        assert(has_at(a, 0, s.step));
        assert(has_at(a, 1, n.step));
        assert(is_fenced(n));
        assert(is_cleared_last(quality_child, n));
        if s.stage == Stage::Opening {
            assert(a[0] == s.step && a[1] == n.step);
            assert(ahead(n) =~= seq![Step::ReadCheckpoint]);
        }
        if s.stage == Stage::Sources {
            assert forall|i: int| 0 <= i < ahead(n).len() implies phase_of_step(
                #[trigger] ahead(n)[i],
            ) != Some(Phase::CodeIndex) by {
                assert(ahead(n)[i] == a[i + 1]);
            }
        }
    } else {
        assert(a.len() == 1 && a[0] == s.step);
        assert(!has_at(a, 1, Step::IndexCode) && !has_at(a, 1, Step::ResetForeignKeys));
        assert(has_at(a, 0, s.step));
    }
}

proof fn lemma_sound_restore(flags: RunFlags, quality_child: bool, s: RunState, failed: bool)
    requires
        is_sound(flags, quality_child, s),
        is_live(s.stage),
        s.step == Step::IndexCode,
    ensures
        is_sound(
            flags,
            quality_child,
            proceed(
                noted(s, failed),
                restore_plan(s.bulk_loading, s.keys_deferred) + s.todo,
            ).0,
        ),
{
    let a = ahead(s);
    let undo = restore_plan(s.bulk_loading, s.keys_deferred);
    let steps = undo + s.todo;
    let n = proceed(noted(s, failed), steps).0;
    let u = undo.len() as int;
    assert(a.drop_first() =~= s.todo);
    assert(a[0] == s.step);
    assert(has_at(a, 0, Step::IndexCode));
    assert(s.stage != Stage::Sources);
    assert(s.stage != Stage::Opening) by {
        if s.stage == Stage::Opening {
            assert(a[0] == Step::EnsureTables || a[0] == Step::ReadCheckpoint);
        }
    }
    if steps.len() > 0 {
        let b = ahead(n);
        assert(b =~= steps);
        assert forall|i: int| 0 <= i < u implies #[trigger] b[i] == undo[i] && (undo[i]
            == Step::DisableBulkLoad && i == 0 && s.bulk_loading || undo[i]
            == Step::ResetForeignKeys && s.keys_deferred && (i == 0 || (i == 1
            && s.bulk_loading))) by {}
        assert forall|i: int| u <= i < b.len() implies #[trigger] b[i] == a[i - u + 1] by {}
        assert forall|i: int| 0 <= i < b.len() implies #[trigger] is_allowed(
            flags,
            quality_child,
            b[i],
        ) by {
            assert(is_allowed(flags, quality_child, a[0]));
            if i >= u {
                assert(is_allowed(flags, quality_child, a[i - u + 1]));
            }
        }
        if !quality_child {
            assert(s.checkpoint == Some(Phase::CodeIndex));
            assert(is_covered(s.checkpoint, undo)) by {
                reveal_with_fuel(is_covered, 3);
            }
            assert(checkpoint_through(s.checkpoint, undo) == s.checkpoint) by {
                reveal_with_fuel(checkpoint_through, 3);
            }
            lemma_covered_parts(s.checkpoint, undo, s.todo, s.checkpoint);
        }
        assert forall|i: int, step: Step| i >= u && #[trigger] has_at(b, i, step) implies has_at(
            a,
            i - u + 1,
            step,
        ) by {}
        assert forall|i: int, step: Step|
            i >= 1 && #[trigger] has_at(a, i, step) implies has_at(b, i - 1 + u, step) by {}
        assert(!has_at(a, 1, Step::DeferForeignKeys)) by {
            if has_at(a, 1, Step::DeferForeignKeys) {
                assert(has_at(a, 0, Step::EnableBulkLoad));
            }
        }
        assert(!has_at(a, 1, Step::IndexCode)) by {
            if has_at(a, 1, Step::IndexCode) {
                assert(has_at(a, 0, Step::DeferForeignKeys));
            }
        }
        assert(!has_at(a, 1, Step::ResetForeignKeys)) by {
            if has_at(a, 1, Step::ResetForeignKeys) {
                assert(has_at(a, 0, Step::DisableBulkLoad));
            }
        }
        assert forall|i: int| #[trigger] has_at(b, i, Step::ResetForeignKeys) && i > 0 implies
            i == 1 && has_at(b, 0, Step::DisableBulkLoad) by {
            if i >= u {
                assert(has_at(a, i - u + 1, Step::ResetForeignKeys));
            }
        }
        assert forall|i: int| #[trigger] has_at(b, i, Step::DisableBulkLoad) implies i == 0 by {
            if i >= u {
                assert(has_at(a, i - u + 1, Step::DisableBulkLoad));
            }
        }
        assert forall|i: int| #[trigger] has_at(b, i, Step::EnableBulkLoad) implies
            has_at(b, i + 1, Step::DeferForeignKeys) by {
            assert(i >= u);
            assert(has_at(a, i - u + 1, Step::EnableBulkLoad));
            assert(has_at(a, i - u + 2, Step::DeferForeignKeys));
        }
        assert forall|i: int| #[trigger] has_at(b, i, Step::DeferForeignKeys) implies
            has_at(b, i + 1, Step::IndexCode)
                && (i > 0 ==> has_at(b, i - 1, Step::EnableBulkLoad)) by {
            assert(i >= u);
            assert(has_at(a, i - u + 1, Step::DeferForeignKeys));
            assert(has_at(a, i - u + 2, Step::IndexCode));
            assert(has_at(a, i - u, Step::EnableBulkLoad));
            assert(i - u >= 1);
        }
        assert forall|i: int| #[trigger] has_at(b, i, Step::IndexCode) && i > 0 implies
            has_at(b, i - 1, Step::DeferForeignKeys) by {
            assert(i >= u);
            assert(has_at(a, i - u + 1, Step::IndexCode));
            assert(has_at(a, i - u, Step::DeferForeignKeys));
            assert(i - u >= 1);
        }
        assert(u > 0 ==> b[0] == undo[0]);
        assert(s.bulk_loading && s.keys_deferred ==> b[1] == undo[1] && has_at(
            b,
            1,
            Step::ResetForeignKeys,
        ));
        assert(is_fenced(n));
        assert forall|i: int| #[trigger] has_at(b, i, Step::ClearCheckpoint) implies n.stage
            == Stage::Indexing && i == b.len() - 1 by {
            assert(i >= u);
            assert(has_at(a, i - u + 1, Step::ClearCheckpoint));
        }
        if n.stage == Stage::Indexing && !quality_child {
            assert(a.last() == Step::ClearCheckpoint);
            assert(a.len() > 1);
        }
        assert(is_cleared_last(quality_child, n));
        assert forall|i: int| !(#[trigger] has_at(b, i, Step::ReadCheckpoint)) by {
            if has_at(b, i, Step::ReadCheckpoint) {
                assert(i >= u);
                assert(has_at(a, i - u + 1, Step::ReadCheckpoint));
            }
        }
    }
}

/// A sound run stays sound, however its steps end.
#[verifier::rlimit(30)]
pub proof fn law_run_stays_sound(
    facts: RunFacts,
    s: RunState,
    failed: bool,
    phase: Option<Phase>,
)
    requires
        is_sound(facts.flags, facts.quality_child, s),
    ensures
        is_sound(facts.flags, facts.quality_child, run_next(facts, s, failed, phase).0),
{
    let flags = facts.flags;
    let child = facts.quality_child;
    let a = ahead(s);
    assert(a[0] == s.step);
    assert(has_at(a, 0, s.step));
    assert(a.drop_first() =~= s.todo);
    assert(is_allowed(flags, child, a[0]) || !is_live(s.stage));
    if !is_live(s.stage) {
    } else if s.step == Step::Rollback {
    } else if failed && is_rolled_back(s.step) {
        let n = run_next(facts, s, failed, phase).0;
        assert(ahead(n) =~= seq![Step::Rollback]);
        reveal_with_fuel(is_covered, 2);
        assert(s.stage != Stage::Opening);
        assert(!child);
        assert forall|i: int, step: Step| #[trigger] has_at(ahead(n), i, step) implies step
            == Step::Rollback by {}
    } else if failed && is_fatal(s.step) {
    } else if s.step == Step::ReadCheckpoint {
        lemma_sound_sources(flags, child, s, phase);
        assert(noted(s, failed) == noted(s, false));
    } else if s.step == Step::IndexCode {
        lemma_sound_restore(flags, child, s, failed);
    } else if s.stage == Stage::Sources && s.todo.len() == 0 {
        assert(phase_of_step(a[0]) != Some(Phase::CodeIndex));
        lemma_sound_index(
            facts,
            RunState { stage: Stage::Indexing, ..noted(s, failed) },
            s.resume,
        );
    } else {
        lemma_sound_onward(flags, child, s, failed);
    }
}

/// Every step of a phase is taken under a checkpoint that names the phase, so that
/// a run that is interrupted there resumes there.
pub proof fn law_phases_run_under_their_checkpoint(flags: RunFlags, s: RunState)
    requires
        is_sound(flags, false, s),
        is_live(s.stage),
        phase_of_step(s.step) is Some,
    ensures
        s.checkpoint == phase_of_step(s.step),
{
    assert(ahead(s)[0] == s.step);
}

/// Bulk-load mode and deferred foreign keys do not leak out of the code index: at
/// any other step, and once the run has ended, what was turned on has been turned
/// off.
pub proof fn law_relaxations_do_not_leak(flags: RunFlags, quality_child: bool, s: RunState)
    requires
        is_sound(flags, quality_child, s),
        !is_live(s.stage) || phase_of_step(s.step) != Some(Phase::CodeIndex),
    ensures
        !s.bulk_loading,
        !s.keys_deferred,
{
}

/// A quality child walks nothing, distills nothing and leaves the checkpoint to its
/// parent.
pub proof fn law_quality_child_keeps_off(flags: RunFlags, s: RunState)
    requires
        is_sound(flags, true, s),
        is_live(s.stage),
    ensures
        phase_of_step(s.step) != Some(Phase::Walk),
        phase_of_step(s.step) != Some(Phase::Distill),
        s.step != Step::BeginCheckpoint,
        !(s.step is AdvanceCheckpoint),
        s.step != Step::ClearCheckpoint,
{
    assert(is_allowed(flags, true, ahead(s)[0]));
}

/// What the options leave out is not done: no linking, no step of the code index and
/// no language model.
pub proof fn law_skipped_steps_are_not_taken(flags: RunFlags, quality_child: bool, s: RunState)
    requires
        is_sound(flags, quality_child, s),
        is_live(s.stage),
    ensures
        flags.skip_linker ==> s.step != Step::LinkMentions,
        flags.skip_code_graph ==> phase_of_step(s.step) != Some(Phase::CodeIndex),
        !flags.llm_distill ==> s.step != Step::DistillWithModel,
{
    assert(is_allowed(flags, quality_child, ahead(s)[0]));
}

/// Only a step of the distillation changes what is reported of it, so that a
/// quality child reports nothing of it.
pub proof fn law_distillation_is_reported_by_its_steps<C, D, L>(
    summary: IngestSummary<C, D, L>,
    symbol_cards: DistillStats,
    step: Step,
    outcome: Outcome<C, D, L>,
)
    requires
        phase_of_step(step) != Some(Phase::Distill),
    ensures
        recorded(summary, symbol_cards, step, outcome).distill == summary.distill,
        recorded(summary, symbol_cards, step, outcome).llm_distill == summary.llm_distill,
{
}

/// A run that owns the checkpoint is complete only after the step that removes it;
/// where that step succeeds, no checkpoint is left.
pub proof fn law_complete_run_has_cleared(
    facts: RunFacts,
    s: RunState,
    failed: bool,
    phase: Option<Phase>,
)
    requires
        is_sound(facts.flags, facts.quality_child, s),
        is_live(s.stage),
        !facts.quality_child,
        run_next(facts, s, failed, phase).1 == Progress::Done,
    ensures
        s.step == Step::ClearCheckpoint,
        !failed ==> run_next(facts, s, failed, phase).0.checkpoint is None,
{
    let a = ahead(s);
    assert(a[0] == s.step);
    if s.stage == Stage::Sources && s.todo.len() == 0 && s.step != Step::ReadCheckpoint && s.step
        != Step::IndexCode {
        lemma_index_places(facts, s.resume);
    }
    if s.stage == Stage::Opening {
        assert(a == seq![Step::EnsureTables, Step::ReadCheckpoint] || a == seq![
            Step::ReadCheckpoint,
        ]);
        assert(s.step == Step::EnsureTables ==> s.todo.len() == 1);
    }
    if s.stage == Stage::Indexing {
        assert(a.last() == Step::ClearCheckpoint || s.step == Step::Rollback);
    }
    if s.stage == Stage::Sources && s.step == Step::IndexCode {
        assert(phase_of_step(a[0]) != Some(Phase::CodeIndex));
    }
}

/// A run that fails leaves the checkpoint as it is, for the next run to resume
/// from.
pub proof fn law_failed_run_keeps_its_checkpoint(
    facts: RunFacts,
    s: RunState,
    failed: bool,
    phase: Option<Phase>,
)
    requires
        is_live(s.stage),
        run_next(facts, s, failed, phase).1 == Progress::Failed,
    ensures
        s.step != Step::ClearCheckpoint,
        run_next(facts, s, failed, phase).0.checkpoint == s.checkpoint,
{
}

/// A walk that fails, or whose commit fails, is rolled back, and the run has then
/// failed.
pub proof fn law_failed_walk_is_rolled_back(
    facts: RunFacts,
    s: RunState,
    phase: Option<Phase>,
    rollback_failed: bool,
    later: Option<Phase>,
)
    requires
        is_live(s.stage),
        s.step == Step::Walk || s.step == Step::Commit,
    ensures
        run_next(facts, s, true, phase).1 == Progress::Do(Step::Rollback),
        run_next(facts, run_next(facts, s, true, phase).0, rollback_failed, later).1
            == Progress::Failed,
{
}

/// Once the checkpoint was read, the walk is ahead of a run unless it is a quality
/// child or resumes a run that was interrupted in the code index or later.
pub proof fn law_walk_is_skipped_once_finished(
    facts: RunFacts,
    s: RunState,
    resume: Option<Phase>,
)
    requires
        is_live(s.stage),
        s.step == Step::ReadCheckpoint,
    ensures
        ahead(run_next(facts, s, false, resume).0).contains(Step::Walk) == !(facts.quality_child
            || resume == Some(Phase::CodeIndex) || resume == Some(Phase::GraphRag) || resume
            == Some(Phase::Distill)),
{
    let plan = sources_plan(facts.quality_child, taken_up(facts.quality_child, resume));
    assert(ahead(run_next(facts, s, false, resume).0) =~= plan);
    if !facts.quality_child && !is_walk_finished(resume) {
        assert(plan[2] == Step::Walk);
    }
}

/// A walk that is not ahead of a run once the checkpoint was read is not taken up
/// later.
pub proof fn law_walk_is_not_taken_up_later(
    facts: RunFacts,
    s: RunState,
    failed: bool,
    phase: Option<Phase>,
)
    requires
        is_live(s.stage),
        s.step != Step::ReadCheckpoint,
        !s.todo.contains(Step::Walk),
        run_next(facts, s, failed, phase).1 is Do,
    ensures
        !ahead(run_next(facts, s, failed, phase).0).contains(Step::Walk),
{
    let t = noted(s, failed);
    if failed && is_rolled_back(s.step) {
        assert(ahead(run_next(facts, s, failed, phase).0) =~= seq![Step::Rollback]);
    } else if s.step == Step::IndexCode {
        let undo = restore_plan(s.bulk_loading, s.keys_deferred);
        lemma_proceed(t, undo + s.todo);
        lemma_restored(undo, s.todo);
    } else if s.stage == Stage::Sources && s.todo.len() == 0 {
        let plan = index_plan(facts, s.resume);
        lemma_proceed(RunState { stage: Stage::Indexing, ..t }, plan);
        lemma_index_places(facts, s.resume);
        assert(!plan.contains(Step::Walk)) by {
            if plan.contains(Step::Walk) {
                let i = choose|i: int| 0 <= i < plan.len() && plan[i] == Step::Walk;
                assert(has_at(plan, i, Step::Walk));
            }
        }
    } else {
        lemma_proceed(t, s.todo);
    }
}

proof fn lemma_restored(undo: Seq<Step>, todo: Seq<Step>)
    requires
        !undo.contains(Step::Walk),
        !todo.contains(Step::Walk),
    ensures
        !(undo + todo).contains(Step::Walk),
{
    let b = undo + todo;
    if b.contains(Step::Walk) {
        let i = choose|i: int| 0 <= i < b.len() && b[i] == Step::Walk;
        if i < undo.len() {
            assert(undo[i] == Step::Walk);
        } else {
            assert(todo[i - undo.len()] == Step::Walk);
        }
    }
}

proof fn lemma_proceed(s: RunState, steps: Seq<Step>)
    requires
        steps.len() > 0,
    ensures
        ahead(proceed(s, steps).0) == steps,
{
    assert(ahead(proceed(s, steps).0) =~= steps);
}


} // verus!
