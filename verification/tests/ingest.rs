use codekb_ingest::ingest::{
    docs_request, finish, ingest, step_sql, DistillStats, IngestRun, Outcome, Phase, Progress,
    RunFlags, Stage, Step,
};
use codekb_ingest::store::{CountCell, Table};
use codekb_ingest::summary::LlmDistillSummary;

type Run = IngestRun<&'static str, &'static str, &'static str>;
type Out = Outcome<&'static str, &'static str, &'static str>;

const PLAIN: RunFlags = RunFlags {
    skip_linker: false,
    skip_code_graph: false,
    llm_distill: false,
};

/// Runs to the end, with the outcome that `answer` gives for each step.
fn drive(run: &mut Run, answer: impl Fn(Step, &mut Run) -> Out) -> (Vec<Step>, Progress) {
    let mut steps = vec![];
    loop {
        let step = run.step;
        steps.push(step);
        assert!(steps.len() <= 26);
        let outcome = answer(step, run);
        match ingest(run, outcome) {
            Progress::Do(next) => assert_eq!(next, run.step),
            end => return (steps, end),
        }
    }
}

fn succeed(step: Step, resume: Option<Phase>) -> Out {
    match step {
        Step::ReadCheckpoint => Outcome::Checkpoint(resume),
        Step::CountRows(Table::Src) => Outcome::Rows(Some(CountCell::Int8(3))),
        Step::CountRows(Table::Docs) => Outcome::Rows(Some(CountCell::Int4(2))),
        Step::CountRows(Table::DocsMd) => Outcome::Rows(Some(CountCell::Int8(1))),
        Step::IndexCode => Outcome::Indexed("code"),
        Step::IngestDocs(Table::Docs) => Outcome::Ingested("docs"),
        Step::IngestDocs(_) => Outcome::Ingested("docs_md"),
        Step::LinkMentions => Outcome::Linked("links"),
        Step::BuildSymbolCards => Outcome::Cards(DistillStats {
            symbols_scanned: 9,
            symbols_written: 5,
            symbols_unchanged: 4,
            ..DistillStats::default()
        }),
        Step::BuildRepomapCards => Outcome::Cards(DistillStats {
            symbols_written: 77,
            files_written: 6,
            pagerank_iters: 20,
            pagerank_converged: true,
            ..DistillStats::default()
        }),
        Step::DistillWithModel => Outcome::Distilled(LlmDistillSummary {
            written: 8,
            unchanged: 1,
            failed: 2,
            total_prompt_tokens: 100,
            total_completion_tokens: 50,
        }),
        _ => Outcome::Done,
    }
}

fn filled(step: Step, run: &mut Run) -> Out {
    if step == Step::Walk {
        run.summary.code_upserts = 3;
        run.summary.doc_upserts = 2;
        run.summary.md_doc_upserts = 1;
    }
    succeed(step, None)
}

const FRESH: [Step; 6] = [
    Step::EnsureTables,
    Step::ReadCheckpoint,
    Step::BeginCheckpoint,
    Step::BeginTransaction,
    Step::Walk,
    Step::Commit,
];

const CODE: [Step; 6] = [
    Step::AdvanceCheckpoint(Phase::CodeIndex),
    Step::EnableBulkLoad,
    Step::DeferForeignKeys,
    Step::IndexCode,
    Step::DisableBulkLoad,
    Step::ResetForeignKeys,
];

const GRAPH: [Step; 3] = [
    Step::AdvanceCheckpoint(Phase::GraphRag),
    Step::IngestDocs(Table::Docs),
    Step::IngestDocs(Table::DocsMd),
];

const DISTILL: [Step; 3] = [
    Step::AdvanceCheckpoint(Phase::Distill),
    Step::BuildSymbolCards,
    Step::BuildRepomapCards,
];

#[test]
fn a_fresh_run_takes_every_phase() {
    let mut run = Run::new(PLAIN, false);
    let (steps, end) = drive(&mut run, filled);
    let mut expected = FRESH.to_vec();
    expected.extend(CODE);
    expected.extend(GRAPH);
    expected.push(Step::LinkMentions);
    expected.extend(DISTILL);
    expected.push(Step::ClearCheckpoint);
    assert_eq!(steps, expected);
    assert_eq!(end, Progress::Done);
    assert_eq!(run.stage, Stage::Finished);
    assert_eq!(run.checkpoint, None);
    let summary = finish(run, 1234);
    assert_eq!(summary.elapsed_ms, 1234);
    assert_eq!(summary.code_upserts, 3);
    assert_eq!(summary.code, Some("code"));
    assert_eq!(summary.docs, Some("docs"));
    assert_eq!(summary.docs_md, Some("docs_md"));
    assert_eq!(summary.links, Some("links"));
    let distill = summary.distill.unwrap();
    assert_eq!((distill.symbols_written, distill.symbols_unchanged), (5, 4));
    assert_eq!((distill.files_written, distill.pagerank_iters), (6, 20));
    assert!(distill.pagerank_converged);
    assert!(summary.llm_distill.is_none());
}

#[test]
fn an_empty_tree_leaves_nothing_to_index() {
    let mut run = Run::new(PLAIN, false);
    let (steps, end) = drive(&mut run, |step, _| succeed(step, None));
    let mut expected = FRESH.to_vec();
    expected.push(Step::ClearCheckpoint);
    assert_eq!((steps, end), (expected, Progress::Done));
    assert!(run.summary.distill.is_none());
}

#[test]
fn a_resumed_run_skips_completed_phases() {
    let counts = [
        Step::EnsureTables,
        Step::ReadCheckpoint,
        Step::CountRows(Table::Src),
        Step::CountRows(Table::Docs),
        Step::CountRows(Table::DocsMd),
    ];
    for phase in [Phase::CodeIndex, Phase::GraphRag, Phase::Distill] {
        let mut run = Run::new(PLAIN, false);
        let (steps, end) = drive(&mut run, |step, _| succeed(step, Some(phase)));
        let mut expected = counts.to_vec();
        if phase == Phase::CodeIndex {
            expected.extend(CODE);
        }
        if phase != Phase::Distill {
            expected.extend(GRAPH);
            expected.push(Step::LinkMentions);
        }
        expected.extend(DISTILL);
        expected.push(Step::ClearCheckpoint);
        assert_eq!((steps, end), (expected, Progress::Done));
        assert_eq!(
            (run.summary.code_upserts, run.summary.doc_upserts, run.summary.md_doc_upserts),
            (3, 2, 1)
        );
    }
}

#[test]
fn the_checkpoint_never_moves_back() {
    let rank = |phase: Option<Phase>| match phase {
        None => 0,
        Some(Phase::Walk) => 1,
        Some(Phase::CodeIndex) => 2,
        Some(Phase::GraphRag) => 3,
        Some(Phase::Distill) => 4,
    };
    for resume in [None, Some(Phase::Walk), Some(Phase::GraphRag), Some(Phase::Distill)] {
        let mut run = Run::new(PLAIN, false);
        loop {
            let step = run.step;
            let before = rank(run.checkpoint);
            if ingest(&mut run, succeed(step, resume)) == Progress::Done {
                break;
            }
            assert!(rank(run.checkpoint) >= before);
        }
        assert_eq!(run.checkpoint, None);
    }
}

#[test]
fn code_alone_is_distilled() {
    let flags = RunFlags {
        llm_distill: true,
        ..PLAIN
    };
    let mut run = Run::new(flags, false);
    let (steps, end) = drive(&mut run, |step, run| {
        if step == Step::Walk {
            run.summary.code_upserts = 1;
        }
        succeed(step, None)
    });
    let mut expected = FRESH.to_vec();
    expected.extend(CODE);
    expected.extend(DISTILL);
    expected.push(Step::DistillWithModel);
    expected.push(Step::ClearCheckpoint);
    assert_eq!((steps, end), (expected, Progress::Done));
    assert!(run.summary.distill.is_some());
    assert!(run.summary.llm_distill.is_some());
}

#[test]
fn a_walk_that_was_interrupted_is_walked_again() {
    let mut run = Run::new(PLAIN, false);
    let (steps, _) = drive(&mut run, |step, _| succeed(step, Some(Phase::Walk)));
    assert_eq!(&steps[..6], &FRESH);
}

#[test]
fn rows_that_cannot_be_counted_count_as_none() {
    let mut run = Run::new(PLAIN, false);
    let (steps, end) = drive(&mut run, |step, _| match step {
        Step::CountRows(Table::Src) => Outcome::Failed,
        Step::CountRows(Table::Docs) => Outcome::Rows(None),
        Step::CountRows(Table::DocsMd) => Outcome::Rows(Some(CountCell::Other)),
        _ => succeed(step, Some(Phase::GraphRag)),
    });
    assert_eq!(steps.last(), Some(&Step::ClearCheckpoint));
    assert_eq!(steps.len(), 6);
    assert_eq!(end, Progress::Done);
}

#[test]
fn a_quality_child_only_indexes() {
    let flags = RunFlags {
        llm_distill: true,
        ..PLAIN
    };
    let mut run = Run::new(flags, true);
    let (steps, end) = drive(&mut run, |step, _| succeed(step, Some(Phase::CodeIndex)));
    let mut expected = vec![
        Step::EnsureTables,
        Step::ReadCheckpoint,
        Step::CountRows(Table::Src),
        Step::CountRows(Table::Docs),
    ];
    expected.extend(&CODE[1..]);
    expected.push(Step::IngestDocs(Table::Docs));
    expected.push(Step::LinkMentions);
    assert_eq!((steps, end), (expected, Progress::Done));
    assert!(run.summary.distill.is_none());
}

#[test]
fn the_linker_can_be_left_out() {
    let flags = RunFlags {
        skip_linker: true,
        ..PLAIN
    };
    let mut run = Run::new(flags, false);
    let (steps, _) = drive(&mut run, filled);
    assert!(!steps.contains(&Step::LinkMentions));
    assert!(steps.contains(&Step::BuildSymbolCards));
    assert!(run.summary.links.is_none());
}

#[test]
fn the_code_graph_can_be_left_out() {
    let flags = RunFlags {
        skip_code_graph: true,
        ..PLAIN
    };
    let mut run = Run::new(flags, false);
    let (steps, _) = drive(&mut run, filled);
    assert_eq!(&steps[6..9], &GRAPH);
    assert!(run.summary.code.is_none());
    assert_eq!(run.summary.docs, Some("docs"));
}

#[test]
fn the_language_model_comes_last() {
    let flags = RunFlags {
        llm_distill: true,
        ..PLAIN
    };
    let mut run = Run::new(flags, false);
    let (steps, _) = drive(&mut run, filled);
    assert_eq!(
        &steps[steps.len() - 3..],
        &[Step::BuildRepomapCards, Step::DistillWithModel, Step::ClearCheckpoint]
    );
    let llm = run.summary.llm_distill.unwrap();
    assert_eq!((llm.written, llm.unchanged, llm.failed), (8, 1, 2));
    assert_eq!((llm.total_prompt_tokens, llm.total_completion_tokens), (100, 50));
}

#[test]
fn documents_alone_are_projected() {
    let mut run = Run::new(PLAIN, false);
    let (steps, _) = drive(&mut run, |step, run| {
        if step == Step::Walk {
            run.summary.binary_upserts = 1;
        }
        succeed(step, None)
    });
    assert_eq!(
        &steps[6..9],
        &[
            Step::AdvanceCheckpoint(Phase::GraphRag),
            Step::IngestDocs(Table::Docs),
            Step::LinkMentions
        ]
    );
}

#[test]
fn a_failed_walk_or_commit_is_rolled_back() {
    for bad in [Step::Walk, Step::Commit] {
        for rollback_fails in [false, true] {
            let mut run = Run::new(PLAIN, false);
            let (steps, end) = drive(&mut run, |step, _| {
                if step == bad || (step == Step::Rollback && rollback_fails) {
                    Outcome::Failed
                } else {
                    succeed(step, None)
                }
            });
            assert_eq!(&steps[steps.len() - 2..], &[bad, Step::Rollback]);
            assert_eq!(end, Progress::Failed);
            assert_eq!(run.stage, Stage::Aborted);
            assert_eq!(run.checkpoint, Some(Phase::Walk));
        }
    }
}

#[test]
fn other_fatal_steps_end_the_run() {
    for bad in [
        Step::EnsureTables,
        Step::ReadCheckpoint,
        Step::BeginCheckpoint,
        Step::BeginTransaction,
        Step::AdvanceCheckpoint(Phase::CodeIndex),
        Step::AdvanceCheckpoint(Phase::GraphRag),
        Step::AdvanceCheckpoint(Phase::Distill),
    ] {
        let mut run = Run::new(PLAIN, false);
        let (steps, end) = drive(&mut run, |step, run| {
            if step == bad {
                Outcome::Failed
            } else {
                filled(step, run)
            }
        });
        assert_eq!(steps.last(), Some(&bad));
        assert_eq!(end, Progress::Failed);
    }
}

#[test]
fn passes_that_fail_are_left_out_of_the_summary() {
    let flags = RunFlags {
        llm_distill: true,
        ..PLAIN
    };
    let mut run = Run::new(flags, false);
    let (steps, end) = drive(&mut run, |step, run| match step {
        Step::EnableBulkLoad
        | Step::DeferForeignKeys
        | Step::IndexCode
        | Step::IngestDocs(_)
        | Step::LinkMentions
        | Step::BuildSymbolCards
        | Step::BuildRepomapCards
        | Step::DistillWithModel => Outcome::Failed,
        _ => filled(step, run),
    });
    assert_eq!(end, Progress::Done);
    assert!(!steps.contains(&Step::DisableBulkLoad));
    assert!(!steps.contains(&Step::ResetForeignKeys));
    let s = &run.summary;
    assert!(s.code.is_none() && s.docs.is_none() && s.docs_md.is_none() && s.links.is_none());
    assert!(s.llm_distill.is_none());
    let distill = s.distill.unwrap();
    assert_eq!((distill.symbols_written, distill.files_written), (0, 0));
    assert!(!distill.pagerank_converged);
}

#[test]
fn what_was_relaxed_is_restored_though_the_index_fails() {
    for (bulk, keys, expected) in [
        (true, true, vec![Step::DisableBulkLoad, Step::ResetForeignKeys]),
        (true, false, vec![Step::DisableBulkLoad]),
        (false, true, vec![Step::ResetForeignKeys]),
        (false, false, vec![]),
    ] {
        let mut run = Run::new(PLAIN, false);
        let (steps, _) = drive(&mut run, |step, run| match step {
            Step::EnableBulkLoad if !bulk => Outcome::Failed,
            Step::DeferForeignKeys if !keys => Outcome::Failed,
            Step::IndexCode => {
                assert_eq!((run.bulk_loading, run.keys_deferred), (bulk, keys));
                Outcome::Failed
            }
            _ => {
                if matches!(step, Step::IngestDocs(_) | Step::ClearCheckpoint) {
                    assert!(!run.bulk_loading && !run.keys_deferred);
                }
                filled(step, run)
            }
        });
        let at = steps.iter().position(|s| *s == Step::IndexCode).unwrap();
        let end = at + 1 + expected.len();
        assert_eq!(&steps[at + 1..end], &expected[..]);
        assert_eq!(steps[end], Step::AdvanceCheckpoint(Phase::GraphRag));
    }
}

#[test]
fn phases_run_under_their_checkpoint() {
    let mut run = Run::new(PLAIN, false);
    drive(&mut run, |step, run| {
        match step {
            Step::Walk => assert_eq!(run.checkpoint, Some(Phase::Walk)),
            Step::IndexCode => assert_eq!(run.checkpoint, Some(Phase::CodeIndex)),
            Step::LinkMentions => assert_eq!(run.checkpoint, Some(Phase::GraphRag)),
            Step::BuildRepomapCards => assert_eq!(run.checkpoint, Some(Phase::Distill)),
            _ => {}
        }
        filled(step, run)
    });
}

#[test]
fn a_checkpoint_that_is_not_removed_stays() {
    let mut run = Run::new(PLAIN, false);
    let (_, end) = drive(&mut run, |step, run| match step {
        Step::ClearCheckpoint => Outcome::Failed,
        _ => filled(step, run),
    });
    assert_eq!(end, Progress::Done);
    assert_eq!(run.checkpoint, Some(Phase::Distill));
}

#[test]
fn a_run_that_has_ended_stays_so() {
    let mut run = Run::new(PLAIN, false);
    drive(&mut run, filled);
    assert_eq!(ingest(&mut run, Outcome::Failed), Progress::Done);
    let mut failed = Run::new(PLAIN, false);
    assert_eq!(ingest(&mut failed, Outcome::Failed), Progress::Failed);
    assert_eq!(ingest(&mut failed, Outcome::Done), Progress::Failed);
}

#[test]
fn steps_have_their_statements() {
    assert_eq!(step_sql(Step::BeginTransaction), Some("BEGIN"));
    assert_eq!(step_sql(Step::Commit), Some("COMMIT"));
    assert_eq!(step_sql(Step::Rollback), Some("ROLLBACK"));
    assert_eq!(step_sql(Step::EnableBulkLoad), Some("SET bulk_load_mode = true"));
    assert_eq!(step_sql(Step::DisableBulkLoad), Some("SET bulk_load_mode = false"));
    assert_eq!(step_sql(Step::DeferForeignKeys), Some("SET fk_validation = deferred"));
    assert_eq!(step_sql(Step::ResetForeignKeys), Some("RESET fk_validation"));
    assert_eq!(step_sql(Step::Walk), None);
}

#[test]
fn documents_are_requested_by_table() {
    let rows = docs_request(Table::Docs);
    assert_eq!((rows.source_table, rows.id_col, rows.text_col), ("docs", "path", "content"));
    assert!(!rows.by_headings);
    let headings = docs_request(Table::DocsMd);
    assert_eq!(headings.source_table, "docs_md");
    assert!(headings.by_headings);
}
