//! What holds of splitting, joining, lower case and decoding, for every text.

use crate::text::{
    cuts, is_blank, is_white_space, joined, lower, lowered, pieces, utf8_message, utf8_text, words, Cut,
};
use vstd::prelude::*;

verus! {

/// White space is what Unicode calls so: 25 characters.
pub proof fn law_white_space(c: char)
    ensures
        is_white_space(c) == seq![
            0x9u32,
            0xa,
            0xb,
            0xc,
            0xd,
            0x20,
            0x85,
            0xa0,
            0x1680,
            0x2000,
            0x2001,
            0x2002,
            0x2003,
            0x2004,
            0x2005,
            0x2006,
            0x2007,
            0x2008,
            0x2009,
            0x200a,
            0x2028,
            0x2029,
            0x202f,
            0x205f,
            0x3000,
        ].contains(c as u32),
{
    let all = seq![
        0x9u32, 0xa, 0xb, 0xc, 0xd, 0x20, 0x85, 0xa0, 0x1680, 0x2000, 0x2001, 0x2002, 0x2003, 0x2004,
        0x2005, 0x2006, 0x2007, 0x2008, 0x2009, 0x200a, 0x2028, 0x2029, 0x202f, 0x205f, 0x3000,
    ];
    let u = c as u32;
    assert(all.len() == 25);
    if is_white_space(c) {
        let i: int = if u <= 0xd {
            u - 0x9
        } else if u == 0x20 {
            5
        } else if u == 0x85 {
            6
        } else if u == 0xa0 {
            7
        } else if u == 0x1680 {
            8
        } else if u <= 0x200a {
            9 + (u - 0x2000)
        } else if u == 0x2028 {
            20
        } else if u == 0x2029 {
            21
        } else if u == 0x202f {
            22
        } else if u == 0x205f {
            23
        } else {
            24
        };
        assert(all[i] == u);
    }
}

/// Blank text is made of white space alone.
pub proof fn law_blank_parts(a: Seq<char>, b: Seq<char>, c: char)
    ensures
        is_blank(Seq::empty()),
        is_blank(seq![c]) == is_white_space(c),
        is_blank(a + b) == (is_blank(a) && is_blank(b)),
{
    let s = a + b;
    assert(seq![c][0] == c);
    if is_blank(s) {
        assert forall|i: int| 0 <= i < a.len() implies is_white_space(#[trigger] a[i]) by {
            assert(is_white_space(s[i]));
        }
        assert forall|i: int| 0 <= i < b.len() implies is_white_space(#[trigger] b[i]) by {
            assert(is_white_space(s[a.len() + i]));
        }
    }
}

/// Lower case is taken letter by letter: an ASCII capital becomes the letter 32 places
/// on, and nothing else changes.
pub proof fn law_lower_case(a: Seq<char>, b: Seq<char>, c: char)
    ensures
        lowered(a).len() == a.len(),
        lowered(a + b) == lowered(a) + lowered(b),
        lowered(lowered(a)) == lowered(a),
        lowered(seq![c]).len() == 1,
        0x41 <= c as u32 <= 0x5a ==> lowered(seq![c])[0] as u32 == c as u32 + 32,
        !(0x41 <= c as u32 <= 0x5a) ==> lowered(seq![c])[0] == c,
{
    assert(lowered(a + b) =~= lowered(a) + lowered(b));
    assert(lowered(lowered(a)) =~= lowered(a));
    assert(lowered(seq![c])[0] == lower(c));
}

proof fn lemma_some_piece(s: Seq<char>, cut: Cut)
    ensures
        pieces(s, cut).len() > 0,
    decreases s.len(),
{
    if s.len() > 0 {
        lemma_some_piece(s.drop_last(), cut);
    }
}

/// A dividing character between two texts keeps their pieces apart, and text without
/// one is a piece of its own.
pub proof fn law_pieces(a: Seq<char>, c: char, b: Seq<char>, cut: Cut)
    requires
        cuts(cut, c),
    ensures
        pieces(a.push(c) + b, cut) == pieces(a, cut) + pieces(b, cut),
        (forall|i: int| 0 <= i < a.len() ==> !cuts(cut, #[trigger] a[i])) ==> pieces(a, cut)
            == seq![a],
    decreases b.len(),
{
    let whole = a.push(c) + b;
    if b.len() == 0 {
        assert(whole.drop_last() =~= a);
        assert(pieces(whole, cut) =~= pieces(a, cut) + pieces(b, cut));
    } else {
        lemma_some_piece(b.drop_last(), cut);
        law_pieces(a, c, b.drop_last(), cut);
        assert(whole.drop_last() =~= a.push(c) + b.drop_last());
        assert(whole.last() == b.last());
        assert(pieces(whole, cut) =~= pieces(a, cut) + pieces(b, cut));
    }
    if forall|i: int| 0 <= i < a.len() ==> !cuts(cut, #[trigger] a[i]) {
        lemma_undivided(a, cut);
    }
}

proof fn lemma_undivided(s: Seq<char>, cut: Cut)
    requires
        forall|i: int| 0 <= i < s.len() ==> !cuts(cut, #[trigger] s[i]),
    ensures
        pieces(s, cut) == seq![s],
    decreases s.len(),
{
    if s.len() == 0 {
        assert(s =~= Seq::<char>::empty());
    } else {
        let front = s.drop_last();
        assert forall|i: int| 0 <= i < front.len() implies !cuts(cut, #[trigger] front[i]) by {
            assert(front[i] == s[i]);
        }
        lemma_undivided(front, cut);
        assert(!cuts(cut, s[s.len() - 1]));
        assert(front.push(s.last()) =~= s);
        assert(pieces(s, cut) =~= seq![s]);
    }
}

/// White space between two texts keeps their words apart; text without white space is
/// a word of its own, unless it is empty.
pub proof fn law_words(a: Seq<char>, c: char, b: Seq<char>)
    requires
        is_white_space(c),
    ensures
        words(a.push(c) + b) == words(a) + words(b),
        words(Seq::empty()) == Seq::<Seq<char>>::empty(),
        a.len() > 0 && (forall|i: int| 0 <= i < a.len() ==> !is_white_space(#[trigger] a[i]))
            ==> words(a) == seq![a],
{
    let full = |w: Seq<char>| w.len() > 0;
    law_pieces(a, c, b, Cut::WhiteSpace);
    Seq::filter_distributes_over_add(
        pieces(a, Cut::WhiteSpace),
        pieces(b, Cut::WhiteSpace),
        full,
    );
    pieces(Seq::empty(), Cut::WhiteSpace).lemma_all_neg_filter_empty(full);
    assert(words(Seq::empty()) =~= Seq::<Seq<char>>::empty());
    if a.len() > 0 && (forall|i: int| 0 <= i < a.len() ==> !is_white_space(#[trigger] a[i])) {
        assert forall|i: int| 0 <= i < a.len() implies !cuts(Cut::WhiteSpace, #[trigger] a[i]) by {
            assert(!is_white_space(a[i]));
        }
        lemma_undivided(a, Cut::WhiteSpace);
        let one = seq![a];
        assert(one.filter(full) =~= one) by {
            reveal(Seq::filter);
            assert(one.drop_last() =~= Seq::<Seq<char>>::empty());
            assert(one.drop_last().filter(full) =~= Seq::<Seq<char>>::empty());
            assert(full(one.last()));
        }
    }
}

/// Joining puts the character between each two texts, and nowhere else.
pub proof fn law_joined(a: Seq<Seq<char>>, b: Seq<Seq<char>>, s: Seq<char>, between: char)
    ensures
        joined(Seq::empty(), between) == Seq::<char>::empty(),
        joined(seq![s], between) == s,
        a.len() > 0 && b.len() > 0 ==> joined(a + b, between) == joined(a, between).push(between)
            + joined(b, between),
    decreases b.len(),
{
    assert(seq![s][0] == s);
    if a.len() > 0 && b.len() > 0 {
        let all = a + b;
        assert(all.last() == b.last());
        if b.len() == 1 {
            assert(all.drop_last() =~= a);
            assert(joined(b, between) == b[0]);
        } else {
            law_joined(a, b.drop_last(), s, between);
            assert(all.drop_last() =~= a + b.drop_last());
            assert(joined(all, between) =~= joined(a, between).push(between) + joined(b, between));
        }
    }
}

/// Reading is decoding, whole and unchanged: bytes that are UTF-8 give the one text
/// that they encode, every text can be read from its encoding, and other bytes give
/// an error.
pub proof fn law_reading_loses_nothing(bytes: Seq<u8>, text: Seq<char>, reason: Seq<char>)
    ensures
        match utf8_text(Ok(bytes)) {
            Ok(s) => vstd::utf8::encode_utf8(s) == bytes,
            Err(e) => !vstd::utf8::valid_utf8(bytes) && e == "not utf-8: "@ + utf8_message(bytes),
        },
        utf8_text(Ok(vstd::utf8::encode_utf8(text))) == Ok::<Seq<char>, Seq<char>>(text),
        utf8_text(Err(reason)) == Err::<Seq<char>, Seq<char>>(reason),
{
    vstd::utf8::encode_utf8_valid_utf8(text);
    vstd::utf8::encode_utf8_decode_utf8(text);
    if vstd::utf8::valid_utf8(bytes) {
        vstd::utf8::decode_utf8_encode_utf8(bytes);
    }
}

} // verus!
