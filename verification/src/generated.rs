//! Which source files a tool wrote: by a marker near their start, or by the
//! `linguist-generated` attribute of the repository.

use crate::text::{
    is_blank, is_white_space, pieces, same_text, split, split_words, texts, words, Cut,
};
use globset::{Glob, GlobSet, GlobSetBuilder};
use vstd::prelude::*;

verus! {

/// How much of a file is looked at for a marker: its first 4 KiB.
pub const HEAD_BYTES: usize = 4096;

/// Whether bytes hold an ASCII text at a position.
pub open spec fn holds_at(bytes: Seq<u8>, text: Seq<char>, k: int) -> bool {
    &&& 0 <= k
    &&& k + text.len() <= bytes.len()
    &&& forall|j: int| 0 <= j < text.len() ==> bytes[k + j] as char == #[trigger] text[j]
}

/// Whether bytes hold an ASCII text somewhere.
pub open spec fn holds(bytes: Seq<u8>, text: Seq<char>) -> bool {
    exists|k: int| holds_at(bytes, text, k)
}

/// Whether the first 4 KiB of a file hold one of the markers, in this very case.
pub open spec fn is_marked_generated(bytes: Seq<u8>) -> bool {
    let head = if bytes.len() > HEAD_BYTES {
        bytes.take(HEAD_BYTES as int)
    } else {
        bytes
    };
    ||| holds(head, "@generated"@)
    ||| holds(head, "DO NOT EDIT"@)
    ||| holds(head, "AUTO-GENERATED"@)
    ||| holds(head, "Code generated by"@)
}

/// Whether the first `n` bytes hold a text.
fn head_holds(bytes: &[u8], n: usize, text: &str) -> (r: bool)
    requires
        n <= bytes@.len(),
    ensures
        r == holds(bytes@.take(n as int), text@),
{
    let ghost head = bytes@.take(n as int);
    let wanted = crate::text::chars_of(text);
    let m: usize = wanted.len();
    if m > n {
        return false;
    }
    let mut k: usize = 0;
    while k <= n - m
        invariant
            m <= n <= bytes@.len(),
            k <= n - m + 1,
            wanted@ == text@,
            m == wanted@.len(),
            head == bytes@.take(n as int),
            forall|i: int| 0 <= i < k ==> !holds_at(head, text@, i),
        decreases n - m + 1 - k,
    {
        let mut j: usize = 0;
        while j < m && bytes[k + j] as char == wanted[j]
            invariant
                j <= m <= n <= bytes@.len(),
                k <= n - m,
                wanted@ == text@,
                m == wanted@.len(),
                head == bytes@.take(n as int),
                forall|i: int| 0 <= i < j ==> head[k + i] as char == #[trigger] text@[i],
            decreases m - j,
        {
            j = j + 1;
        }
        if j == m {
            assert(holds_at(head, text@, k as int));
            return true;
        }
        assert(head[k + j] as char != text@[j as int]);
        assert(!holds_at(head, text@, k as int));
        k = k + 1;
    }
    assert forall|i: int| !holds_at(head, text@, i) by {}
    false
}

/// Whether the first bytes of a file show that a tool wrote it.
pub fn is_generated_file(head: &[u8]) -> (r: bool)
    ensures
        r == is_marked_generated(head@),
{
    let n: usize = if head.len() > HEAD_BYTES {
        HEAD_BYTES
    } else {
        head.len()
    };
    assert(head@.take(head@.len() as int) =~= head@);
    head_holds(head, n, "@generated") || head_holds(head, n, "DO NOT EDIT") || head_holds(
        head,
        n,
        "AUTO-GENERATED",
    ) || head_holds(head, n, "Code generated by")
}

/// Whether a word of an attributes line flags the pattern as generated.
pub open spec fn is_flag(word: Seq<char>) -> bool {
    ||| word == "linguist-generated"@
    ||| word == "linguist-generated=true"@
    ||| word == "linguist-generated=set"@
}

/// The pattern of an attributes line that flags it as generated. The line's first
/// word is the pattern, the others are attributes in any order; a line whose
/// first word begins with `#` is a comment.
pub open spec fn flagged_pattern(line: Seq<char>) -> Option<Seq<char>> {
    let w = words(line);
    if w.len() > 0 && w[0][0] != '#' && (exists|i: int| 0 < i < w.len() && is_flag(#[trigger] w[i])) {
        Some(w[0])
    } else {
        None
    }
}

/// The patterns that the given lines flag as generated, in order.
pub open spec fn patterns_of_lines(lines: Seq<Seq<char>>) -> Seq<Seq<char>>
    decreases lines.len(),
{
    if lines.len() == 0 {
        Seq::empty()
    } else {
        match flagged_pattern(lines.last()) {
            Some(p) => patterns_of_lines(lines.drop_last()).push(p),
            None => patterns_of_lines(lines.drop_last()),
        }
    }
}

/// The patterns that attributes files flag as generated, in order.
pub open spec fn generated_patterns(bodies: Seq<Seq<char>>) -> Seq<Seq<char>>
    decreases bodies.len(),
{
    if bodies.len() == 0 {
        Seq::empty()
    } else {
        generated_patterns(bodies.drop_last()) + patterns_of_lines(
            pieces(bodies.last(), Cut::At('\n')),
        )
    }
}

/// The pattern of an attributes line, where the line flags it as generated.
fn read_line(line: &str) -> (r: Option<String>)
    ensures
        match r {
            Some(p) => flagged_pattern(line@) == Some(p@),
            None => flagged_pattern(line@) is None,
        },
{
    let found = split_words(line);
    let ghost w = words(line@);
    proof {
        assert forall|i: int| 0 <= i < found@.len() implies w[i] == #[trigger] found@[i]@ by {
            assert(texts(found@)[i] == found@[i]@);
        }
    }
    if found.len() == 0 {
        return None;
    }
    assert(w[0].len() > 0) by {
        let full = |w: Seq<char>| w.len() > 0;
        let all = pieces(line@, Cut::WhiteSpace);
        all.lemma_filter_pred(full, 0);
        assert(full(w[0]));
    }
    if found[0].as_str().get_char(0) == '#' {
        return None;
    }
    let mut i: usize = 1;
    while i < found.len()
        invariant
            1 <= i <= found@.len(),
            w == words(line@),
            w.len() == found@.len(),
            w[0] == found@[0]@,
            w[0][0] != '#',
            forall|j: int| 0 <= j < found@.len() ==> w[j] == #[trigger] found@[j]@,
            forall|j: int| 0 < j < i ==> !is_flag(#[trigger] w[j]),
        decreases found.len() - i,
    {
        let word: &str = found[i].as_str();
        assert(w[i as int] == word@);
        if same_text(word, "linguist-generated") || same_text(word, "linguist-generated=true")
            || same_text(word, "linguist-generated=set") {
            assert(is_flag(w[i as int]));
            return Some(found[0].clone());
        }
        i = i + 1;
    }
    None
}

/// The patterns that the attributes files flag as generated, in order.
pub fn linguist_generated_patterns(bodies: &Vec<String>) -> (r: Vec<String>)
    ensures
        texts(r@) == generated_patterns(texts(bodies@)),
{
    let mut r: Vec<String> = Vec::new();
    let ghost all = texts(bodies@);
    let mut b: usize = 0;
    assert(texts(r@) =~= generated_patterns(all.take(0)));
    while b < bodies.len()
        invariant
            b <= bodies@.len(),
            all == texts(bodies@),
            texts(r@) == generated_patterns(all.take(b as int)),
        decreases bodies.len() - b,
    {
        let lines = split(bodies[b].as_str(), Cut::At('\n'));
        let ghost before = texts(r@);
        let ghost every = pieces(all[b as int], Cut::At('\n'));
        let mut i: usize = 0;
        assert(before + patterns_of_lines(every.take(0)) =~= before);
        while i < lines.len()
            invariant
                i <= lines@.len(),
                texts(lines@) == every,
                texts(r@) == before + patterns_of_lines(every.take(i as int)),
            decreases lines.len() - i,
        {
            let ghost so_far = texts(r@);
            assert(every.take(i + 1).drop_last() =~= every.take(i as int));
            assert(every[i as int] == lines@[i as int]@);
            if let Some(p) = read_line(lines[i].as_str()) {
                r.push(p);
                assert(texts(r@) =~= so_far.push(p@));
            }
            assert(texts(r@) =~= before + patterns_of_lines(every.take(i + 1)));
            i = i + 1;
        }
        assert(every.take(every.len() as int) =~= every);
        assert(all.take(b + 1).drop_last() =~= all.take(b as int));
        b = b + 1;
    }
    assert(all.take(all.len() as int) =~= all);
    r
}

/// `globset::Glob`, a pattern that was parsed.
#[verifier::external_type_specification]
#[verifier::external_body]
pub struct ExGlob(globset::Glob);

/// `globset::Error`, of which nothing is read.
#[verifier::external_type_specification]
#[verifier::external_body]
pub struct ExGlobError(globset::Error);

/// `globset::GlobSetBuilder`, the globs that a set is to hold.
#[verifier::external_type_specification]
#[verifier::external_body]
pub struct ExGlobSetBuilder(globset::GlobSetBuilder);

/// `globset::GlobSet`, globs that are matched together.
#[verifier::external_type_specification]
#[verifier::external_body]
pub struct ExGlobSet(globset::GlobSet);

/// Whether `globset::Glob::new` accepts a pattern, on a host where `/` alone separates
/// the segments of a path.
pub uninterp spec fn is_glob(pattern: Seq<char>) -> bool;

/// The pattern that `globset::Glob::new` made a `globset::Glob` from. What stands for
/// a glob with other options than the default ones is left open.
pub uninterp spec fn glob_pattern(glob: Glob) -> Seq<char>;

/// The patterns that were added to a `globset::GlobSetBuilder`, in order.
pub uninterp spec fn added_globs(builder: GlobSetBuilder) -> Seq<Seq<char>>;

/// Whether `globset::GlobSetBuilder::build` succeeds on a builder with these
/// patterns.
pub uninterp spec fn globs_build(patterns: Seq<Seq<char>>) -> bool;

/// The patterns that a `globset::GlobSet` was built from, in order.
pub uninterp spec fn set_globs(set: GlobSet) -> Seq<Seq<char>>;

/// Whether the glob that `globset::Glob::new` makes from a pattern matches a path, as
/// `globset::GlobSet::is_match` takes it, on a host where `/` alone separates the
/// segments of a path.
pub uninterp spec fn glob_matches(pattern: Seq<char>, path: Seq<char>) -> bool;

/// `globset::Glob::new`: whether it succeeds depends on the pattern alone, and the
/// glob keeps the pattern.
pub assume_specification[ globset::Glob::new ](glob: &str) -> (r: Result<
    globset::Glob,
    globset::Error,
>)
    ensures
        r is Ok == is_glob(glob@),
        r is Ok ==> glob_pattern(r->Ok_0) == glob@,
;

/// `globset::GlobSetBuilder::new`: a builder without patterns.
pub assume_specification[ globset::GlobSetBuilder::new ]() -> (r: globset::GlobSetBuilder)
    ensures
        added_globs(r) == Seq::<Seq<char>>::empty(),
;

/// `globset::GlobSetBuilder::add`: the glob is added after those already there.
#[verifier::external_body]
fn add_glob(builder: &mut GlobSetBuilder, glob: Glob)
    ensures
        added_globs(*final(builder)) == added_globs(*old(builder)).push(glob_pattern(glob)),
{
    builder.add(glob);
}

/// `globset::GlobSetBuilder::build`: whether it succeeds depends on the added
/// patterns alone, and the set holds all of them.
pub assume_specification[ globset::GlobSetBuilder::build ](
    builder: &globset::GlobSetBuilder,
) -> (r: Result<globset::GlobSet, globset::Error>)
    ensures
        r is Ok == globs_build(added_globs(*builder)),
        r is Ok ==> set_globs(r->Ok_0) == added_globs(*builder),
;

/// `globset::GlobSet::is_match`: true where any glob of the set matches the path.
#[verifier::external_body]
fn set_matches(set: &GlobSet, path: &str) -> (r: bool)
    ensures
        r == (exists|i: int|
            0 <= i < set_globs(*set).len() && glob_matches(#[trigger] set_globs(*set)[i], path@)),
{
    set.is_match(path)
}

/// Whether one of the patterns matches a path.
pub open spec fn any_glob_matches(patterns: Seq<Seq<char>>, path: Seq<char>) -> bool {
    exists|i: int| 0 <= i < patterns.len() && glob_matches(#[trigger] patterns[i], path)
}

/// The flagged patterns that are globs.
pub open spec fn generated_globs(bodies: Seq<Seq<char>>) -> Seq<Seq<char>> {
    generated_patterns(bodies).filter(|p: Seq<char>| is_glob(p))
}

/// Builds the set of globs that the repository's attributes files flag as
/// generated. `bodies` holds the text of each file that could be read, first
/// `.gitattributes` and then `.git/info/attributes`. Patterns that are no globs
/// are left out; without any glob, or where the set does not build, there is no
/// set and only the markers in the files count.
pub fn load_linguist_generated_globset(bodies: &Vec<String>) -> (r: Option<GlobSet>)
    ensures
        r is Some == (generated_globs(texts(bodies@)).len() > 0 && globs_build(
            generated_globs(texts(bodies@)),
        )),
        r is Some ==> set_globs(r->0) == generated_globs(texts(bodies@)),
{
    let patterns = linguist_generated_patterns(bodies);
    let ghost all = generated_patterns(texts(bodies@));
    let ghost glob = |p: Seq<char>| is_glob(p);
    let mut builder = GlobSetBuilder::new();
    let mut any: bool = false;
    let mut i: usize = 0;
    assert(all.take(0).filter(glob) =~= Seq::<Seq<char>>::empty()) by {
        reveal(Seq::filter);
    }
    while i < patterns.len()
        invariant
            i <= patterns@.len(),
            all == texts(patterns@),
            glob == (|p: Seq<char>| is_glob(p)),
            added_globs(builder) == all.take(i as int).filter(glob),
            any == (added_globs(builder).len() > 0),
        decreases patterns.len() - i,
    {
        assert(all.take(i + 1).drop_last() =~= all.take(i as int));
        assert(all[i as int] == patterns@[i as int]@);
        proof {
            reveal(Seq::filter);
        }
        if let Ok(g) = Glob::new(patterns[i].as_str()) {
            add_glob(&mut builder, g);
            any = true;
        }
        i = i + 1;
    }
    assert(all.take(all.len() as int) =~= all);
    if !any {
        return None;
    }
    match builder.build() {
        Ok(set) => Some(set),
        Err(_) => None,
    }
}

/// Whether a glob of the set, where there is one, matches a path.
pub open spec fn is_linguist_generated(set: Option<GlobSet>, rel: Seq<char>) -> bool {
    set is Some && any_glob_matches(set_globs(set->0), rel)
}

/// Whether the repository's attributes flag the file with this relative path as
/// generated.
pub fn linguist_generated(set: &Option<GlobSet>, rel: &str) -> (r: bool)
    ensures
        r == is_linguist_generated(*set, rel@),
{
    match set {
        Some(s) => set_matches(s, rel),
        None => false,
    }
}

proof fn lemma_blank_start(a: Seq<char>, b: Seq<char>)
    requires
        is_blank(a),
    ensures
        pieces(a + b, Cut::WhiteSpace).len() == a.len() + pieces(b, Cut::WhiteSpace).len(),
        pieces(b, Cut::WhiteSpace).len() > 0,
        forall|i: int|
            0 <= i < a.len() ==> (#[trigger] pieces(a + b, Cut::WhiteSpace)[i]).len() == 0,
        pieces(a + b, Cut::WhiteSpace).skip(a.len() as int) == pieces(b, Cut::WhiteSpace),
    decreases a.len() + b.len(),
{
    let whole = a + b;
    let all = pieces(whole, Cut::WhiteSpace);
    if b.len() > 0 {
        lemma_blank_start(a, b.drop_last());
        assert(whole.drop_last() =~= a + b.drop_last());
        assert(whole.last() == b.last());
        let before = pieces(a + b.drop_last(), Cut::WhiteSpace);
        let rest = pieces(b.drop_last(), Cut::WhiteSpace);
        assert(before.last() == rest.last()) by {
            assert(before.skip(a.len() as int).last() == rest.last());
        }
        assert forall|i: int| 0 <= i < a.len() implies (#[trigger] all[i]).len() == 0 by {
            assert(all[i] == before[i]);
        }
        assert(all.skip(a.len() as int) =~= pieces(b, Cut::WhiteSpace)) by {
            assert forall|i: int| 0 <= i < rest.len() implies before[a.len() + i] == #[trigger] rest[i] by {
                assert(before.skip(a.len() as int)[i] == rest[i]);
            }
        }
    } else if a.len() > 0 {
        lemma_blank_start(a.drop_last(), b);
        assert(whole =~= a);
        assert(whole.drop_last() =~= a.drop_last() + b);
        let before = pieces(a.drop_last() + b, Cut::WhiteSpace);
        assert(is_white_space(a[a.len() - 1]));
        assert(before.skip(a.len() - 1)[0] == before[a.len() - 1]);
        assert(before.skip(a.len() - 1) == pieces(b, Cut::WhiteSpace));
        assert forall|i: int| 0 <= i < a.len() implies (#[trigger] all[i]).len() == 0 by {
            assert(all[i] == before[i]);
            if i == a.len() - 1 {
                assert(before[i].len() == 0);
            }
        }
        assert(all.skip(a.len() as int) =~= pieces(b, Cut::WhiteSpace));
    } else {
        assert(whole =~= b);
        assert(all.skip(0) =~= all);
    }
}

proof fn lemma_words_after_blank(a: Seq<char>, b: Seq<char>)
    requires
        is_blank(a),
    ensures
        words(a + b) == words(b),
{
    let full = |w: Seq<char>| w.len() > 0;
    let all = pieces(a + b, Cut::WhiteSpace);
    let n = a.len() as int;
    lemma_blank_start(a, b);
    let gap = all.take(n);
    assert forall|i: int| 0 <= i < gap.len() implies !full(#[trigger] gap[i]) by {
        assert(gap[i] == all[i]);
    }
    gap.lemma_all_neg_filter_empty(full);
    assert(all =~= gap + pieces(b, Cut::WhiteSpace)) by {
        assert(all =~= gap + all.skip(n));
    }
    Seq::filter_distributes_over_add(gap, pieces(b, Cut::WhiteSpace), full);
    assert(gap.filter(full) =~= Seq::<Seq<char>>::empty());
    assert(words(a + b) =~= words(b));
}

proof fn lemma_first_piece(s: Seq<char>)
    requires
        s.len() > 0,
        !is_white_space(s[0]),
    ensures
        pieces(s, Cut::WhiteSpace).len() > 0,
        pieces(s, Cut::WhiteSpace)[0].len() > 0,
        pieces(s, Cut::WhiteSpace)[0][0] == s[0],
    decreases s.len(),
{
    if s.len() == 1 {
        assert(s.drop_last() =~= Seq::<char>::empty());
        assert(pieces(s.drop_last(), Cut::WhiteSpace) =~= seq![Seq::<char>::empty()]);
    } else {
        lemma_first_piece(s.drop_last());
    }
}

/// A blank line flags nothing.
pub proof fn law_blank_lines_flag_nothing(line: Seq<char>)
    requires
        is_blank(line),
    ensures
        flagged_pattern(line) is None,
{
    let empty = Seq::<char>::empty();
    lemma_words_after_blank(line, empty);
    assert(line + empty =~= line);
    assert(words(empty).len() == 0) by {
        pieces(empty, Cut::WhiteSpace).lemma_all_neg_filter_empty(|w: Seq<char>| w.len() > 0);
    }
}

/// A comment flags nothing: a line that begins with `#`, white space aside.
pub proof fn law_comments_flag_nothing(space: Seq<char>, comment: Seq<char>)
    requires
        is_blank(space),
        comment.len() > 0,
        comment[0] == '#',
    ensures
        flagged_pattern(space + comment) is None,
{
    let full = |w: Seq<char>| w.len() > 0;
    let all = pieces(comment, Cut::WhiteSpace);
    lemma_words_after_blank(space, comment);
    lemma_first_piece(comment);
    let head = seq![all[0]];
    let tail = all.drop_first();
    assert(all =~= head + tail);
    Seq::filter_distributes_over_add(head, tail, full);
    assert(head.filter(full) =~= head) by {
        reveal(Seq::filter);
        assert(head.drop_last() =~= Seq::<Seq<char>>::empty());
        assert(full(head.last()));
    }
    assert(words(comment)[0] == all[0]);
}

} // verus!
