//! What holds of every walk, whatever it is told.

use crate::classify::{is_screened, kind_of};
use crate::generated::{
    any_glob_matches, generated_globs, glob_matches, is_marked_generated, set_globs, HEAD_BYTES,
};
use crate::paths::relative;
use crate::store::{StatementModel, Table};
use crate::tables::{after_all, has_tables, law_statements_can_be_repeated, KnowledgeBase};
use crate::walk::{
    after_skip, content_of, fits, is_accounted, is_in_kb, is_wanted, stored, walk_action, walk_next,
    PendingModel, Tally, WalkActionModel, WalkEventModel, WalkModel, WalkRules,
};
use vstd::prelude::*;

verus! {

/// Every file that the walk has seen stays accounted for, whatever it is told.
pub proof fn law_walk_accounts_for_every_file(
    rules: WalkRules,
    m: WalkModel,
    event: WalkEventModel,
)
    requires
        is_accounted(m),
    ensures
        is_accounted(walk_next(rules, m, event)),
{
}

/// Without read errors there are no samples of them, and there are never more than
/// ten.
pub proof fn law_samples_are_of_errors(m: WalkModel)
    requires
        is_accounted(m),
    ensures
        m.tally.read_errors == 0 ==> m.tally.samples.len() == 0,
        m.tally.samples.len() <= 10,
{
}

/// No count ever falls, and a sample once kept stays.
pub proof fn law_walk_counts_never_fall(rules: WalkRules, m: WalkModel, event: WalkEventModel)
    ensures
        ({
            let t = m.tally;
            let u = walk_next(rules, m, event).tally;
            &&& t.files_seen <= u.files_seen
            &&& t.code_upserts <= u.code_upserts
            &&& t.doc_upserts <= u.doc_upserts
            &&& t.md_doc_upserts <= u.md_doc_upserts
            &&& t.binary_upserts <= u.binary_upserts
            &&& t.skipped <= u.skipped
            &&& t.read_errors <= u.read_errors
            &&& t.samples.is_prefix_of(u.samples)
        }),
{
    let t = m.tally;
    let u = walk_next(rules, m, event).tally;
    assert(t.samples =~= u.samples.subrange(0, t.samples.len() as int));
}

/// How many answers a walk needs at most before the file at hand is dealt with.
pub open spec fn answers_owed(pending: PendingModel) -> nat {
    match pending {
        PendingModel::Idle => 0,
        PendingModel::Stopped { .. } => 0,
        PendingModel::Upsert { left, .. } => 1 + left.len(),
        PendingModel::Content { .. } => 3,
        PendingModel::Head { .. } => 4,
        PendingModel::Size { .. } => 5,
    }
}

/// Whether an event is the answer that a walk waits for.
pub open spec fn is_answer(pending: PendingModel, event: WalkEventModel) -> bool {
    match pending {
        PendingModel::Idle => false,
        PendingModel::Stopped { .. } => false,
        PendingModel::Upsert { .. } => event is Stored,
        PendingModel::Size { .. } => event is Size,
        PendingModel::Head { .. } => event is Head,
        PendingModel::Content { kind, .. } => event is Loaded && fits(kind, event->Loaded_0),
    }
}

/// Every file is dealt with after five answers at most: each one brings it nearer,
/// and nothing else changes what the walk waits for.
pub proof fn law_every_file_is_dealt_with(rules: WalkRules, m: WalkModel, event: WalkEventModel)
    requires
        is_accounted(m),
        !(m.pending is Idle),
    ensures
        answers_owed(m.pending) <= 5,
        is_answer(m.pending, event) ==> answers_owed(walk_next(rules, m, event).pending)
            < answers_owed(m.pending),
        !is_answer(m.pending, event) ==> walk_next(rules, m, event) == m,
{
}

/// Nothing inside a knowledge base is indexed, nor even counted.
pub proof fn law_kb_is_not_indexed(rules: WalkRules, m: WalkModel, path: Seq<char>, is_file: bool)
    requires
        is_in_kb(path),
    ensures
        walk_next(rules, m, WalkEventModel::Entry { path, is_file }) == m,
{
}

/// A file of more than 5 MiB is skipped, whatever it is.
pub proof fn law_large_files_are_skipped(
    rules: WalkRules,
    m: WalkModel,
    path: Seq<char>,
    size: u64,
)
    requires
        m.pending == (PendingModel::Size { path }),
        size > 5 * 1024 * 1024,
    ensures
        walk_next(rules, m, WalkEventModel::Size(Some(size))).pending is Idle,
        walk_next(rules, m, WalkEventModel::Size(Some(size))).tally.skipped == m.tally.skipped + 1,
{
}

/// A code file or notebook is skipped where a glob that the repository's attributes
/// files flag as generated matches its path relative to the root.
pub proof fn law_flagged_files_are_skipped(
    rules: WalkRules,
    m: WalkModel,
    path: Seq<char>,
    size: Option<u64>,
    bodies: Seq<Seq<char>>,
    i: int,
)
    requires
        m.pending == (PendingModel::Size { path }),
        is_screened(kind_of(path)),
        rules.linguist is Some,
        set_globs(rules.linguist->0) == generated_globs(bodies),
        0 <= i < generated_globs(bodies).len(),
        glob_matches(generated_globs(bodies)[i], relative(path, rules.root)),
    ensures
        walk_next(rules, m, WalkEventModel::Size(size)) == after_skip(m),
{
    assert(any_glob_matches(generated_globs(bodies), relative(path, rules.root)));
}

/// A code file or notebook is skipped where its first bytes hold a marker.
pub proof fn law_marked_files_are_skipped(rules: WalkRules, m: WalkModel, head: Seq<u8>)
    requires
        m.pending is Head,
        is_marked_generated(head),
    ensures
        walk_next(rules, m, WalkEventModel::Head(Some(head))) == after_skip(m),
{
}

/// Where binary documents are not wanted, they are skipped without being opened.
pub proof fn law_binary_documents_are_optional(
    rules: WalkRules,
    m: WalkModel,
    path: Seq<char>,
    size: Option<u64>,
)
    requires
        m.pending == (PendingModel::Size { path }),
        !rules.binary_docs,
        kind_of(path) is Pdf || kind_of(path) is Docx || kind_of(path) is Xlsx,
    ensures
        walk_next(rules, m, WalkEventModel::Size(size)) == after_skip(m),
{
}

/// Text and documents are not subject to the generated-file checks: they are not
/// looked into, and the repository's attributes make no difference to them.
pub proof fn law_documents_are_not_screened(
    rules: WalkRules,
    other: WalkRules,
    m: WalkModel,
    path: Seq<char>,
    size: Option<u64>,
)
    requires
        m.pending == (PendingModel::Size { path }),
        !is_screened(kind_of(path)),
        other == (WalkRules { linguist: other.linguist, ..rules }),
    ensures
        !(walk_next(rules, m, WalkEventModel::Size(size)).pending is Head),
        walk_next(rules, m, WalkEventModel::Size(size)) == walk_next(
            other,
            m,
            WalkEventModel::Size(size),
        ),
{
}

/// A marker after the first 4 KiB of a file does not count.
pub proof fn law_only_the_head_is_scanned(one: Seq<u8>, other: Seq<u8>)
    requires
        one.len() >= HEAD_BYTES,
        other.len() >= HEAD_BYTES,
        one.take(HEAD_BYTES as int) == other.take(HEAD_BYTES as int),
    ensures
        is_marked_generated(one) == is_marked_generated(other),
{
    if one.len() == HEAD_BYTES {
        assert(one.take(HEAD_BYTES as int) =~= one);
    }
    if other.len() == HEAD_BYTES {
        assert(other.take(HEAD_BYTES as int) =~= other);
    }
}

/// Whether the file at hand is known under its kind, under its path relative to
/// the root and, once its content is awaited, as one that is indexed.
pub open spec fn is_faithful(rules: WalkRules, m: WalkModel) -> bool {
    match m.pending {
        PendingModel::Head { path, rel, kind } => kind == kind_of(path) && rel == relative(
            path,
            rules.root,
        ) && is_screened(kind),
        PendingModel::Content { path, rel, kind } => kind == kind_of(path) && rel == relative(
            path,
            rules.root,
        ) && is_wanted(rules, kind),
        _ => true,
    }
}

/// The file at hand stays known under its kind and its relative path.
pub proof fn law_walk_stays_faithful(rules: WalkRules, m: WalkModel, event: WalkEventModel)
    requires
        is_faithful(rules, m),
    ensures
        is_faithful(rules, walk_next(rules, m, event)),
{
}

/// What is stored is the content of the file at hand, under its path relative to
/// the root and as its kind demands; what is not indexed is never stored. The first
/// statement comes once the content was loaded, and each further one once the one
/// before it succeeded.
pub proof fn law_files_are_stored_by_kind(rules: WalkRules, m: WalkModel, event: WalkEventModel)
    requires
        is_faithful(rules, m),
        walk_action(rules, m, event) is Store,
    ensures
        m.pending is Content || m.pending is Upsert,
        m.pending is Content ==> event is Loaded && ({
            let path = m.pending->Content_path;
            let kind = kind_of(path);
            let found = content_of(kind, path, event->Loaded_0);
            let statements = stored(
                kind,
                relative(path, rules.root),
                found->Ok_0.0,
                found->Ok_0.1,
            );
            &&& is_wanted(rules, kind)
            &&& found is Ok
            &&& walk_action(rules, m, event)->Store_0 == statements[0]
            &&& walk_next(rules, m, event).pending->Upsert_left == statements.drop_first()
        }),
        m.pending is Upsert ==> event == WalkEventModel::Stored(true) && walk_action(
            rules,
            m,
            event,
        )->Store_0 == m.pending->Upsert_left[0] && walk_next(rules, m, event).pending->Upsert_left
            == m.pending->Upsert_left.drop_first(),
{
}

/// A count of upserts grows by one when an upsert into its table succeeded, and at
/// no other time: that of code for sources, that of Markdown for Markdown documents,
/// that of documents for text, and that of binary documents for the others.
pub proof fn law_counts_follow_upserts(rules: WalkRules, m: WalkModel, event: WalkEventModel)
    ensures
        ({
            let t = m.tally;
            let u = walk_next(rules, m, event).tally;
            &&& u.code_upserts - t.code_upserts == upserts_now(m, event, Table::Src, true)
                + upserts_now(m, event, Table::Src, false)
            &&& u.md_doc_upserts - t.md_doc_upserts == upserts_now(m, event, Table::DocsMd, true)
                + upserts_now(m, event, Table::DocsMd, false)
            &&& u.doc_upserts - t.doc_upserts == upserts_now(m, event, Table::Docs, true)
            &&& u.binary_upserts - t.binary_upserts == upserts_now(m, event, Table::Docs, false)
        }),
{
}

/// How many upserts into a table an event reports as done, of text or of the rest.
pub open spec fn upserts_now(
    m: WalkModel,
    event: WalkEventModel,
    table: Table,
    text: bool,
) -> int {
    if m.pending is Upsert && event == WalkEventModel::Stored(true) && m.pending->Upsert_table
        == table && (m.pending->Upsert_kind is Text) == text {
        1
    } else {
        0
    }
}

/// Whether an event reports that an upsert failed.
pub open spec fn fails_now(m: WalkModel, event: WalkEventModel) -> bool {
    m.pending is Upsert && event == WalkEventModel::Stored(false)
}

/// The state of a walk after events, one after another.
pub open spec fn walk_after(rules: WalkRules, m: WalkModel, events: Seq<WalkEventModel>) -> WalkModel
    decreases events.len(),
{
    if events.len() == 0 {
        m
    } else {
        walk_next(rules, walk_after(rules, m, events.drop_last()), events.last())
    }
}

/// The statements that a walk hands out for events, one after another.
pub open spec fn handed_out(
    rules: WalkRules,
    m: WalkModel,
    events: Seq<WalkEventModel>,
) -> Seq<StatementModel>
    decreases events.len(),
{
    if events.len() == 0 {
        Seq::empty()
    } else {
        let before = events.drop_last();
        match walk_action(rules, walk_after(rules, m, before), events.last()) {
            WalkActionModel::Store(statement) => handed_out(rules, m, before).push(statement),
            _ => handed_out(rules, m, before),
        }
    }
}

/// How many upserts into a table succeed in the course of events, of text or of the
/// rest.
pub open spec fn upserts_done(
    rules: WalkRules,
    m: WalkModel,
    events: Seq<WalkEventModel>,
    table: Table,
    text: bool,
) -> int
    decreases events.len(),
{
    if events.len() == 0 {
        0
    } else {
        let before = events.drop_last();
        upserts_done(rules, m, before, table, text) + upserts_now(
            walk_after(rules, m, before),
            events.last(),
            table,
            text,
        )
    }
}

/// Whether an upsert fails in the course of events.
pub open spec fn has_failed(rules: WalkRules, m: WalkModel, events: Seq<WalkEventModel>) -> bool
    decreases events.len(),
{
    events.len() > 0 && (has_failed(rules, m, events.drop_last()) || fails_now(
        walk_after(rules, m, events.drop_last()),
        events.last(),
    ))
}

/// Over a whole walk, be it complete or stopped, the counts of upserts grow by the
/// number of upserts that succeeded.
pub proof fn law_walk_counts_what_was_stored(
    rules: WalkRules,
    m: WalkModel,
    events: Seq<WalkEventModel>,
)
    ensures
        ({
            let t = m.tally;
            let u = walk_after(rules, m, events).tally;
            &&& u.code_upserts - t.code_upserts == upserts_done(rules, m, events, Table::Src, true)
                + upserts_done(rules, m, events, Table::Src, false)
            &&& u.md_doc_upserts - t.md_doc_upserts == upserts_done(
                rules,
                m,
                events,
                Table::DocsMd,
                true,
            ) + upserts_done(rules, m, events, Table::DocsMd, false)
            &&& u.doc_upserts - t.doc_upserts == upserts_done(rules, m, events, Table::Docs, true)
            &&& u.binary_upserts - t.binary_upserts == upserts_done(
                rules,
                m,
                events,
                Table::Docs,
                false,
            )
        }),
    decreases events.len(),
{
    if events.len() > 0 {
        let before = events.drop_last();
        law_walk_counts_what_was_stored(rules, m, before);
        law_counts_follow_upserts(rules, walk_after(rules, m, before), events.last());
    }
}

/// A walk stops if and only if an upsert failed.
pub proof fn law_walk_stops_where_an_upsert_fails(
    rules: WalkRules,
    m: WalkModel,
    events: Seq<WalkEventModel>,
)
    requires
        !(m.pending is Stopped),
    ensures
        walk_after(rules, m, events).pending is Stopped == has_failed(rules, m, events),
    decreases events.len(),
{
    if events.len() > 0 {
        law_walk_stops_where_an_upsert_fails(rules, m, events.drop_last());
    }
}

/// A walk that has stopped stays as it is: it stores nothing more and counts nothing
/// more, whatever it is told.
pub proof fn law_stopped_walk_stays(rules: WalkRules, m: WalkModel, events: Seq<WalkEventModel>)
    requires
        m.pending is Stopped,
    ensures
        walk_after(rules, m, events) == m,
        handed_out(rules, m, events).len() == 0,
    decreases events.len(),
{
    if events.len() > 0 {
        law_stopped_walk_stays(rules, m, events.drop_last());
    }
}

/// Whether the counts grow from `a` to `b` as they grow from `c` to `d`.
pub open spec fn grows_alike(a: Tally, b: Tally, c: Tally, d: Tally) -> bool {
    &&& b.files_seen - a.files_seen == d.files_seen - c.files_seen
    &&& b.code_upserts - a.code_upserts == d.code_upserts - c.code_upserts
    &&& b.doc_upserts - a.doc_upserts == d.doc_upserts - c.doc_upserts
    &&& b.md_doc_upserts - a.md_doc_upserts == d.md_doc_upserts - c.md_doc_upserts
    &&& b.binary_upserts - a.binary_upserts == d.binary_upserts - c.binary_upserts
    &&& b.skipped - a.skipped == d.skipped - c.skipped
    &&& b.read_errors - a.read_errors == d.read_errors - c.read_errors
    &&& b.unreadable - a.unreadable == d.unreadable - c.unreadable
}

/// Two walks that are told the same hand out the same statements, and their counts
/// grow alike, whatever they had counted before.
pub proof fn law_walks_repeat(
    rules: WalkRules,
    one: WalkModel,
    other: WalkModel,
    events: Seq<WalkEventModel>,
)
    requires
        one.pending == other.pending,
    ensures
        handed_out(rules, one, events) == handed_out(rules, other, events),
        walk_after(rules, one, events).pending == walk_after(rules, other, events).pending,
        grows_alike(
            one.tally,
            walk_after(rules, one, events).tally,
            other.tally,
            walk_after(rules, other, events).tally,
        ),
    decreases events.len(),
{
    if events.len() > 0 {
        let before = events.drop_last();
        law_walks_repeat(rules, one, other, before);
        lemma_step_repeats(
            rules,
            walk_after(rules, one, before),
            walk_after(rules, other, before),
            events.last(),
        );
    }
}

proof fn lemma_step_repeats(
    rules: WalkRules,
    one: WalkModel,
    other: WalkModel,
    event: WalkEventModel,
)
    requires
        one.pending == other.pending,
    ensures
        walk_action(rules, one, event) == walk_action(rules, other, event),
        walk_next(rules, one, event).pending == walk_next(rules, other, event).pending,
        grows_alike(
            one.tally,
            walk_next(rules, one, event).tally,
            other.tally,
            walk_next(rules, other, event).tally,
        ),
{
}

/// A walk over an unchanged tree can be replayed: on a knowledge base that has the
/// tables, doing the upserts of a walk a second time leaves it as it was.
pub proof fn law_replayed_walk_changes_no_row(
    rules: WalkRules,
    m: WalkModel,
    again: WalkModel,
    events: Seq<WalkEventModel>,
    kb: KnowledgeBase,
)
    requires
        m.pending == again.pending,
        has_tables(kb),
    ensures
        after_all(
            after_all(kb, handed_out(rules, m, events)),
            handed_out(rules, again, events),
        ) == after_all(kb, handed_out(rules, m, events)),
{
    law_walks_repeat(rules, m, again, events);
    law_statements_can_be_repeated(kb, handed_out(rules, m, events));
}

} // verus!
