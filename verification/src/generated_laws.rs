//! What counts as generated, for every file, attributes file and path.

use crate::generated::{
    flagged_pattern, generated_globs, generated_patterns, glob_matches, holds, holds_at, is_flag,
    is_glob, is_linguist_generated, is_marked_generated, patterns_of_lines, set_globs,
};
use crate::text::{is_white_space, pieces, words, Cut};
use crate::text_laws::{law_pieces, law_words};
use globset::GlobSet;
use vstd::prelude::*;

verus! {

/// The bytes of an ASCII text.
pub open spec fn ascii(text: Seq<char>) -> Seq<u8> {
    text.map_values(|c: char| c as u8)
}

/// Whether bytes stand somewhere among others.
pub open spec fn occurs(part: Seq<u8>, bytes: Seq<u8>) -> bool {
    exists|k: int|
        0 <= k && k + part.len() <= bytes.len() && #[trigger] bytes.subrange(k, k + part.len())
            == part
}

proof fn lemma_ascii_char(c: char)
    requires
        c as u32 <= 127,
    ensures
        (c as u8) as char == c,
{
    vstd::utf8::char_is_scalar(c);
}

proof fn lemma_holds_occurs(bytes: Seq<u8>, text: Seq<char>)
    requires
        forall|j: int| 0 <= j < text.len() ==> (#[trigger] text[j]) as u32 <= 127,
    ensures
        holds(bytes, text) == occurs(ascii(text), bytes),
{
    let part = ascii(text);
    if holds(bytes, text) {
        let k = choose|k: int| holds_at(bytes, text, k);
        let found = bytes.subrange(k, k + part.len());
        assert forall|j: int| 0 <= j < part.len() implies found[j] == part[j] by {
            assert(bytes[k + j] as char == text[j]);
        }
        assert(found =~= part);
    }
    if occurs(part, bytes) {
        let k = choose|k: int|
            0 <= k && k + part.len() <= bytes.len() && #[trigger] bytes.subrange(k, k + part.len())
                == part;
        assert forall|j: int| 0 <= j < text.len() implies bytes[k + j] as char
            == #[trigger] text[j] by {
            assert(bytes.subrange(k, k + part.len())[j] == part[j]);
            lemma_ascii_char(text[j]);
        }
        assert(holds_at(bytes, text, k));
    }
}

/// A file is generated where one of four byte strings occurs within its first 4096
/// bytes, and where none of them does it is not.
pub proof fn law_markers(bytes: Seq<u8>)
    ensures
        ({
            let first = bytes.take(
                if bytes.len() < 4096 {
                    bytes.len() as int
                } else {
                    4096
                },
            );
            is_marked_generated(bytes) == (occurs(ascii("@generated"@), first) || occurs(
                ascii("DO NOT EDIT"@),
                first,
            ) || occurs(ascii("AUTO-GENERATED"@), first) || occurs(
                ascii("Code generated by"@),
                first,
            ))
        }),
{
    let first = bytes.take(
        if bytes.len() < 4096 {
            bytes.len() as int
        } else {
            4096
        },
    );
    if bytes.len() <= 4096 {
        assert(first =~= bytes);
    }
    reveal_strlit("@generated");
    reveal_strlit("DO NOT EDIT");
    reveal_strlit("AUTO-GENERATED");
    reveal_strlit("Code generated by");
    lemma_holds_occurs(first, "@generated"@);
    lemma_holds_occurs(first, "DO NOT EDIT"@);
    lemma_holds_occurs(first, "AUTO-GENERATED"@);
    lemma_holds_occurs(first, "Code generated by"@);
}

/// Whatever stands before and after it, a marker within the first 4096 bytes counts.
pub proof fn law_markers_count_anywhere(before: Seq<u8>, marker: Seq<char>, after: Seq<u8>)
    requires
        marker == "@generated"@ || marker == "DO NOT EDIT"@ || marker == "AUTO-GENERATED"@ || marker
            == "Code generated by"@,
        before.len() + marker.len() <= 4096,
    ensures
        is_marked_generated(before + ascii(marker) + after),
{
    let bytes = before + ascii(marker) + after;
    let k = before.len() as int;
    let first = bytes.take(
        if bytes.len() < 4096 {
            bytes.len() as int
        } else {
            4096
        },
    );
    law_markers(bytes);
    assert(first.subrange(k, k + marker.len()) =~= ascii(marker));
    assert(occurs(ascii(marker), first));
}

/// A file without an at sign and without a capital letter holds no marker.
pub proof fn law_plain_files_are_not_marked(bytes: Seq<u8>)
    requires
        forall|i: int|
            0 <= i < bytes.len() ==> #[trigger] bytes[i] != 0x40 && !(0x41 <= bytes[i] <= 0x5a),
    ensures
        !is_marked_generated(bytes),
{
    let first = bytes.take(
        if bytes.len() < 4096 {
            bytes.len() as int
        } else {
            4096
        },
    );
    law_markers(bytes);
    reveal_strlit("@generated");
    reveal_strlit("DO NOT EDIT");
    reveal_strlit("AUTO-GENERATED");
    reveal_strlit("Code generated by");
    assert("@generated"@[0] == '@' && "DO NOT EDIT"@[0] == 'D');
    assert("AUTO-GENERATED"@[0] == 'A' && "Code generated by"@[0] == 'C');
    lemma_absent(ascii("@generated"@), first);
    lemma_absent(ascii("DO NOT EDIT"@), first);
    lemma_absent(ascii("AUTO-GENERATED"@), first);
    lemma_absent(ascii("Code generated by"@), first);
}

proof fn lemma_absent(part: Seq<u8>, bytes: Seq<u8>)
    requires
        part.len() > 0,
        forall|i: int| 0 <= i < bytes.len() ==> #[trigger] bytes[i] != part[0],
    ensures
        !occurs(part, bytes),
{
    if occurs(part, bytes) {
        let k = choose|k: int|
            0 <= k && k + part.len() <= bytes.len() && #[trigger] bytes.subrange(k, k + part.len())
                == part;
        assert(bytes.subrange(k, k + part.len())[0] == bytes[k]);
    }
}

/// A line of attributes is a pattern and, after white space, words of which one of
/// three flags the pattern, wherever it stands among them. A pattern alone is not
/// flagged.
pub proof fn law_flagged_lines(pattern: Seq<char>, c: char, rest: Seq<char>)
    requires
        pattern.len() > 0,
        pattern[0] != '#',
        forall|i: int| 0 <= i < pattern.len() ==> !is_white_space(#[trigger] pattern[i]),
        is_white_space(c),
    ensures
        flagged_pattern(pattern) is None,
        flagged_pattern(pattern.push(c) + rest) == if words(rest).contains("linguist-generated"@)
            || words(rest).contains("linguist-generated=true"@) || words(rest).contains(
            "linguist-generated=set"@,
        ) {
            Some(pattern)
        } else {
            None
        },
{
    let line = pattern.push(c) + rest;
    law_words(pattern, c, rest);
    let w = words(line);
    let others = words(rest);
    assert(w == seq![pattern] + others);
    assert(w[0] == pattern);
    if others.contains("linguist-generated"@) || others.contains("linguist-generated=true"@)
        || others.contains("linguist-generated=set"@) {
        let flag = if others.contains("linguist-generated"@) {
            "linguist-generated"@
        } else if others.contains("linguist-generated=true"@) {
            "linguist-generated=true"@
        } else {
            "linguist-generated=set"@
        };
        let i = choose|i: int| 0 <= i < others.len() && others[i] == flag;
        assert(w[i + 1] == flag);
        assert(is_flag(w[i + 1]));
    } else {
        assert forall|i: int| 0 < i < w.len() implies !is_flag(#[trigger] w[i]) by {
            assert(w[i] == others[i - 1]);
        }
    }
}

/// White space before and after a line makes no difference.
pub proof fn law_lines_are_trimmed(line: Seq<char>, c: char)
    requires
        is_white_space(c),
    ensures
        flagged_pattern(seq![c] + line) == flagged_pattern(line),
        flagged_pattern(line.push(c)) == flagged_pattern(line),
{
    let none = Seq::<char>::empty();
    law_words(none, c, line);
    law_words(line, c, none);
    assert(none.push(c) + line =~= seq![c] + line);
    assert(line.push(c) + none =~= line.push(c));
    assert(words(seq![c] + line) =~= words(line));
    assert(words(line.push(c)) =~= words(line));
}

proof fn lemma_lines_add(a: Seq<Seq<char>>, b: Seq<Seq<char>>)
    ensures
        patterns_of_lines(a + b) == patterns_of_lines(a) + patterns_of_lines(b),
    decreases b.len(),
{
    let all = a + b;
    if b.len() == 0 {
        assert(all =~= a);
        assert(patterns_of_lines(all) =~= patterns_of_lines(a) + patterns_of_lines(b));
    } else {
        lemma_lines_add(a, b.drop_last());
        assert(all.drop_last() =~= a + b.drop_last());
        assert(patterns_of_lines(all) =~= patterns_of_lines(a) + patterns_of_lines(b));
    }
}

proof fn lemma_one_body(body: Seq<char>)
    ensures
        generated_patterns(seq![body]) == patterns_of_lines(pieces(body, Cut::At('\n'))),
        generated_patterns(Seq::empty()) == Seq::<Seq<char>>::empty(),
{
    let one = seq![body];
    assert(one.drop_last() =~= Seq::<Seq<char>>::empty());
    assert(one.last() == body);
    reveal_with_fuel(generated_patterns, 2);
    assert(generated_patterns(one) =~= patterns_of_lines(pieces(body, Cut::At('\n'))));
}

/// Attributes files are read line by line: each line adds the pattern that it flags,
/// in order, and no line touches another.
pub proof fn law_patterns_come_line_by_line(a: Seq<char>, b: Seq<char>)
    ensures
        generated_patterns(seq![a.push('\n') + b]) == generated_patterns(seq![a])
            + generated_patterns(seq![b]),
        !a.contains('\n') ==> generated_patterns(seq![a]) == match flagged_pattern(a) {
            Some(pattern) => seq![pattern],
            None => Seq::empty(),
        },
{
    law_pieces(a, '\n', b, Cut::At('\n'));
    lemma_one_body(a);
    lemma_one_body(b);
    lemma_one_body(a.push('\n') + b);
    lemma_lines_add(pieces(a, Cut::At('\n')), pieces(b, Cut::At('\n')));
    if !a.contains('\n') {
        assert forall|i: int| 0 <= i < a.len() implies a[i] != '\n' by {}
        let one = seq![a];
        assert(pieces(a, Cut::At('\n')) == one);
        assert(one.drop_last() =~= Seq::<Seq<char>>::empty());
        assert(one.last() == a);
        reveal_with_fuel(patterns_of_lines, 2);
        assert(generated_patterns(one) =~= match flagged_pattern(a) {
            Some(pattern) => seq![pattern],
            None => Seq::<Seq<char>>::empty(),
        });
    }
}

/// Attributes files add up, in order.
pub proof fn law_patterns_of_files_add_up(a: Seq<Seq<char>>, b: Seq<Seq<char>>)
    ensures
        generated_patterns(a + b) == generated_patterns(a) + generated_patterns(b),
        generated_patterns(Seq::empty()) == Seq::<Seq<char>>::empty(),
        generated_globs(a + b) == generated_globs(a) + generated_globs(b),
    decreases b.len(),
{
    let all = a + b;
    if b.len() == 0 {
        assert(all =~= a);
        assert(generated_patterns(all) =~= generated_patterns(a) + generated_patterns(b));
    } else {
        law_patterns_of_files_add_up(a, b.drop_last());
        assert(all.drop_last() =~= a + b.drop_last());
        assert(generated_patterns(all) =~= generated_patterns(a) + generated_patterns(b));
    }
    Seq::filter_distributes_over_add(
        generated_patterns(a),
        generated_patterns(b),
        |p: Seq<char>| is_glob(p),
    );
}

/// Every flagged pattern that is a glob is matched, and nothing else is.
pub proof fn law_flagged_globs(bodies: Seq<Seq<char>>, pattern: Seq<char>)
    ensures
        generated_globs(bodies).contains(pattern) == (generated_patterns(bodies).contains(pattern)
            && is_glob(pattern)),
{
    let all = generated_patterns(bodies);
    let glob = |p: Seq<char>| is_glob(p);
    if generated_globs(bodies).contains(pattern) {
        let i = choose|i: int|
            0 <= i < generated_globs(bodies).len() && generated_globs(bodies)[i] == pattern;
        all.lemma_filter_pred(glob, i);
        all.lemma_filter_contains_rev(glob, pattern);
    }
    if all.contains(pattern) && is_glob(pattern) {
        let i = choose|i: int| 0 <= i < all.len() && all[i] == pattern;
        assert(glob(all[i]));
        all.lemma_filter_contains(glob, i);
    }
}

/// A path is flagged where any of the globs of the set matches it; without a set none
/// is.
pub proof fn law_any_glob_flags(set: GlobSet, i: int, rel: Seq<char>)
    ensures
        !is_linguist_generated(None, rel),
        0 <= i < set_globs(set).len() && glob_matches(set_globs(set)[i], rel)
            ==> is_linguist_generated(Some(set), rel),
        (forall|k: int|
            0 <= k < set_globs(set).len() ==> !glob_matches(#[trigger] set_globs(set)[k], rel))
            ==> !is_linguist_generated(Some(set), rel),
{
}

} // verus!
