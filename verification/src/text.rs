//! Text as sequences of characters: comparison, white space, splitting and joining.

use vstd::prelude::*;

verus! {

/// `String::push`: the character is appended to the end of the string.
pub assume_specification[ String::push ](s: &mut String, c: char)
    ensures
        final(s)@ == old(s)@.push(c),
;

/// The characters of a string, in order.
pub fn chars_of(s: &str) -> (r: Vec<char>)
    ensures
        r@ == s@,
{
    let mut r: Vec<char> = Vec::new();
    for c in it: s.chars()
        invariant
            it.seq() == s@,
            r@ == s@.take(it.index() as int),
    {
        r.push(c);
    }
    r
}

/// Whether two strings hold the same characters.
pub fn same_text(a: &str, b: &str) -> (r: bool)
    ensures
        r == (a@ == b@),
{
    a.to_owned() == b.to_owned()
}

/// The characters with the Unicode property White_Space.
pub open spec fn is_white_space(c: char) -> bool {
    let u = c as u32;
    ||| 0x9 <= u <= 0xd
    ||| u == 0x20
    ||| u == 0x85
    ||| u == 0xa0
    ||| u == 0x1680
    ||| 0x2000 <= u <= 0x200a
    ||| u == 0x2028
    ||| u == 0x2029
    ||| u == 0x202f
    ||| u == 0x205f
    ||| u == 0x3000
}

/// Whether a character is white space.
pub fn white_space(c: char) -> (r: bool)
    ensures
        r == is_white_space(c),
{
    let u: u32 = c as u32;
    (0x9 <= u && u <= 0xd) || u == 0x20 || u == 0x85 || u == 0xa0 || u == 0x1680 || (0x2000 <= u
        && u <= 0x200a) || u == 0x2028 || u == 0x2029 || u == 0x202f || u == 0x205f || u == 0x3000
}

/// Text that holds nothing but white space.
pub open spec fn is_blank(s: Seq<char>) -> bool {
    forall|i: int| 0 <= i < s.len() ==> is_white_space(#[trigger] s[i])
}

/// Whether a string holds nothing but white space.
pub fn blank(s: &str) -> (r: bool)
    ensures
        r == is_blank(s@),
{
    for c in it: s.chars()
        invariant
            it.seq() == s@,
            forall|i: int| 0 <= i < it.index() ==> is_white_space(#[trigger] s@[i]),
    {
        if !white_space(c) {
            assert(!is_white_space(s@[it.index() as int]));
            return false;
        }
    }
    true
}

/// The lower-case form of an ASCII letter; any other character is its own.
pub open spec fn lower(c: char) -> char {
    if 'A' <= c && c <= 'Z' {
        ((c as u32) + 32) as char
    } else {
        c
    }
}

/// Text with its ASCII letters in lower case.
pub open spec fn lowered(s: Seq<char>) -> Seq<char> {
    s.map_values(|c: char| lower(c))
}

/// A string with its ASCII letters in lower case.
pub fn to_lower(s: &str) -> (r: String)
    ensures
        r@ == lowered(s@),
{
    let mut r = String::new();
    for c in it: s.chars()
        invariant
            it.seq() == s@,
            r@ == lowered(s@.take(it.index() as int)),
    {
        let d: char = if 'A' <= c && c <= 'Z' {
            ((c as u8) + 32) as char
        } else {
            c
        };
        r.push(d);
        assert(s@.take(it.index() + 1) =~= s@.take(it.index() as int).push(c));
        assert(lowered(s@.take(it.index() + 1)) =~= lowered(s@.take(it.index() as int)).push(d));
    }
    assert(s@.take(s@.len() as int) =~= s@);
    r
}

/// What divides a text into pieces.
#[derive(Clone, Copy)]
pub enum Cut {
    /// One given character.
    At(char),
    /// Any white space.
    WhiteSpace,
}

/// Whether a character divides.
pub open spec fn cuts(cut: Cut, c: char) -> bool {
    match cut {
        Cut::At(d) => c == d,
        Cut::WhiteSpace => is_white_space(c),
    }
}

/// The pieces of a text between its dividing characters, the empty ones too.
pub open spec fn pieces(s: Seq<char>, cut: Cut) -> Seq<Seq<char>>
    decreases s.len(),
{
    if s.len() == 0 {
        seq![Seq::<char>::empty()]
    } else {
        let before = pieces(s.drop_last(), cut);
        if cuts(cut, s.last()) {
            before.push(Seq::<char>::empty())
        } else {
            before.drop_last().push(before.last().push(s.last()))
        }
    }
}

/// The words of a text: its pieces between white space that are not empty.
pub open spec fn words(s: Seq<char>) -> Seq<Seq<char>> {
    pieces(s, Cut::WhiteSpace).filter(|w: Seq<char>| w.len() > 0)
}

/// The texts that a sequence of strings holds.
pub open spec fn texts(v: Seq<String>) -> Seq<Seq<char>> {
    v.map_values(|s: String| s@)
}

/// Texts one after another with a character between each two.
pub open spec fn joined(parts: Seq<Seq<char>>, between: char) -> Seq<char>
    decreases parts.len(),
{
    if parts.len() == 0 {
        Seq::empty()
    } else if parts.len() == 1 {
        parts[0]
    } else {
        joined(parts.drop_last(), between).push(between) + parts.last()
    }
}

/// Splitting loses nothing: there is a last piece, no piece holds a dividing
/// character, and the pieces joined by the dividing character are the text.
pub proof fn law_pieces_rejoin(s: Seq<char>, c: char)
    ensures
        pieces(s, Cut::At(c)).len() >= 1,
        forall|i: int|
            0 <= i < pieces(s, Cut::At(c)).len() ==> !(#[trigger] pieces(s, Cut::At(c))[i]).contains(
                c,
            ),
        joined(pieces(s, Cut::At(c)), c) == s,
    decreases s.len(),
{
    let all = pieces(s, Cut::At(c));
    if s.len() == 0 {
        assert(joined(all, c) =~= s);
    } else {
        let before = pieces(s.drop_last(), Cut::At(c));
        law_pieces_rejoin(s.drop_last(), c);
        if cuts(Cut::At(c), s.last()) {
            assert(all.drop_last() =~= before);
            assert(joined(all, c) =~= s);
        } else {
            assert(all.drop_last() =~= before.drop_last());
            assert forall|i: int| 0 <= i < all.len() implies !(#[trigger] all[i]).contains(c) by {
                if i == all.len() - 1 {
                    let w = before.last();
                    assert(!before[before.len() - 1].contains(c));
                    if all[i].contains(c) {
                        let k = choose|k: int| 0 <= k < all[i].len() && all[i][k] == c;
                        assert(w[k] == c);
                    }
                } else {
                    assert(all[i] == before[i]);
                }
            }
            assert(all.len() == before.len());
            if before.len() == 1 {
                assert(joined(before, c) == before[0]);
                assert(joined(all, c) == all[0]);
            }
            assert(joined(all, c) =~= joined(before, c).push(s.last()));
            assert(joined(all, c) =~= s);
        }
    }
}

/// A dividing character between two texts keeps their pieces apart.
pub proof fn lemma_pieces_apart(a: Seq<char>, b: Seq<char>, c: char)
    ensures
        pieces(a.push(c) + b, Cut::At(c)) == pieces(a, Cut::At(c)) + pieces(b, Cut::At(c)),
    decreases b.len(),
{
    let whole = a.push(c) + b;
    if b.len() == 0 {
        assert(whole.drop_last() =~= a);
        assert(pieces(whole, Cut::At(c)) =~= pieces(a, Cut::At(c)) + pieces(b, Cut::At(c)));
    } else {
        law_pieces_rejoin(b.drop_last(), c);
        lemma_pieces_apart(a, b.drop_last(), c);
        assert(whole.drop_last() =~= a.push(c) + b.drop_last());
        assert(whole.last() == b.last());
        assert(pieces(whole, Cut::At(c)) =~= pieces(a, Cut::At(c)) + pieces(b, Cut::At(c)));
    }
}

/// The pieces of a string between its dividing characters, the empty ones too.
pub fn split(s: &str, cut: Cut) -> (r: Vec<String>)
    ensures
        texts(r@) == pieces(s@, cut),
{
    let mut r: Vec<String> = Vec::new();
    let mut last = String::new();
    assert(s@.take(0) =~= Seq::<char>::empty());
    assert(texts(r@).push(last@) =~= pieces(s@.take(0), cut));
    for c in it: s.chars()
        invariant
            it.seq() == s@,
            texts(r@).push(last@) == pieces(s@.take(it.index() as int), cut),
    {
        let ghost before = texts(r@).push(last@);
        let ghost next = s@.take(it.index() + 1);
        assert(next.drop_last() =~= s@.take(it.index() as int));
        let divides: bool = match cut {
            Cut::At(d) => c == d,
            Cut::WhiteSpace => white_space(c),
        };
        if divides {
            r.push(last);
            last = String::new();
            assert(texts(r@) =~= before);
        } else {
            last.push(c);
            assert(texts(r@).push(last@) =~= before.drop_last().push(before.last().push(c)));
        }
    }
    assert(s@.take(s@.len() as int) =~= s@);
    let ghost all = texts(r@).push(last@);
    r.push(last);
    assert(texts(r@) =~= all);
    r
}

/// The words of a string.
pub fn split_words(s: &str) -> (r: Vec<String>)
    ensures
        texts(r@) == words(s@),
{
    let parts = split(s, Cut::WhiteSpace);
    let ghost all = pieces(s@, Cut::WhiteSpace);
    let ghost full = |w: Seq<char>| w.len() > 0;
    let mut r: Vec<String> = Vec::new();
    let mut i: usize = 0;
    assert(all.take(0).filter(full) =~= Seq::<Seq<char>>::empty()) by {
        reveal(Seq::filter);
    }
    while i < parts.len()
        invariant
            i <= parts@.len(),
            texts(parts@) == all,
            full == (|w: Seq<char>| w.len() > 0),
            texts(r@) == all.take(i as int).filter(full),
        decreases parts.len() - i,
    {
        let ghost before = texts(r@);
        assert(all[i as int] == parts@[i as int]@);
        assert(all.take(i + 1).drop_last() =~= all.take(i as int));
        proof {
            reveal(Seq::filter);
        }
        if !parts[i].as_str().is_empty() {
            let word: String = parts[i].clone();
            r.push(word);
            assert(texts(r@) =~= before.push(all[i as int]));
        }
        i = i + 1;
    }
    assert(all.take(all.len() as int) =~= all);
    r
}

/// Strings one after another with a character between each two.
pub fn join(parts: &Vec<String>, between: char) -> (r: String)
    ensures
        r@ == joined(texts(parts@), between),
{
    let mut r = String::new();
    let mut i: usize = 0;
    let ghost all = texts(parts@);
    while i < parts.len()
        invariant
            i <= parts@.len(),
            all == texts(parts@),
            r@ == joined(all.take(i as int), between),
        decreases parts.len() - i,
    {
        assert(all.take(i + 1).drop_last() =~= all.take(i as int));
        if i > 0 {
            r.push(between);
        }
        r.append(parts[i].as_str());
        assert(r@ =~= joined(all.take(i + 1), between));
        i = i + 1;
    }
    assert(all.take(all.len() as int) =~= all);
    r
}

/// The message of the error that `String::from_utf8` returns on bytes that are not
/// UTF-8.
pub uninterp spec fn utf8_message(bytes: Seq<u8>) -> Seq<char>;

/// `String::from_utf8`: the string that the bytes encode, where they are UTF-8,
/// and otherwise an error, whose message depends on the bytes alone.
#[verifier::external_body]
fn string_from_utf8(bytes: Vec<u8>) -> (r: Result<String, String>)
    ensures
        r is Ok == vstd::utf8::valid_utf8(bytes@),
        match r {
            Ok(s) => s@ == vstd::utf8::decode_utf8(bytes@),
            Err(message) => message@ == utf8_message(bytes@),
        },
{
    String::from_utf8(bytes).map_err(|e| e.to_string())
}

/// The text of a file from its bytes, where they could be read and are UTF-8, and
/// otherwise the reason why there is none.
pub open spec fn utf8_text(read: Result<Seq<u8>, Seq<char>>) -> Result<Seq<char>, Seq<char>> {
    match read {
        Err(reason) => Err(reason),
        Ok(bytes) => if vstd::utf8::valid_utf8(bytes) {
            Ok(vstd::utf8::decode_utf8(bytes))
        } else {
            Err("not utf-8: "@ + utf8_message(bytes))
        },
    }
}

/// The outcome of reading a file, over sequences.
pub open spec fn read_view(read: Result<Vec<u8>, String>) -> Result<Seq<u8>, Seq<char>> {
    match read {
        Ok(bytes) => Ok(bytes@),
        Err(reason) => Err(reason@),
    }
}

/// A text, or the reason why there is none, over sequences.
pub open spec fn text_view(r: Result<String, String>) -> Result<Seq<char>, Seq<char>> {
    match r {
        Ok(s) => Ok(s@),
        Err(reason) => Err(reason@),
    }
}

/// The text of a file. `read` holds its bytes, or the reason why they could not be
/// read.
pub fn read_utf8(read: Result<Vec<u8>, String>) -> (r: Result<String, String>)
    ensures
        text_view(r) == utf8_text(read_view(read)),
{
    match read {
        Err(reason) => Err(reason),
        Ok(bytes) => match string_from_utf8(bytes) {
            Ok(s) => Ok(s),
            Err(message) => Err("not utf-8: ".to_owned().concat(message.as_str())),
        },
    }
}

} // verus!
