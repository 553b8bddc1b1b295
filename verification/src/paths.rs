//! Paths as text with `/` between their segments.

use crate::text::{
    join, joined, law_pieces_rejoin, lemma_pieces_apart, pieces, same_text, split, texts, Cut,
};
use vstd::prelude::*;

verus! {

/// The segments of a path: the text between its slashes, the empty ones too.
pub open spec fn segments(path: Seq<char>) -> Seq<Seq<char>> {
    pieces(path, Cut::At('/'))
}

/// Whether a segment is a part of the path. The first segment is one unless the
/// path is empty: the root where it is empty, the current directory where it is
/// `.`. Further on, empty segments and `.` are not.
pub open spec fn is_part(segs: Seq<Seq<char>>, i: int) -> bool {
    if i == 0 {
        segs[0].len() > 0 || segs.len() > 1
    } else {
        segs[i].len() > 0 && segs[i] != "."@
    }
}

/// The positions of the parts among the first `n` segments.
pub open spec fn part_positions(segs: Seq<Seq<char>>, n: int) -> Seq<int>
    decreases n,
{
    if n <= 0 {
        Seq::empty()
    } else {
        let before = part_positions(segs, n - 1);
        if is_part(segs, n - 1) {
            before.push(n - 1)
        } else {
            before
        }
    }
}

/// The positions of the parts of a path among its segments.
pub open spec fn positions(path: Seq<char>) -> Seq<int> {
    part_positions(segments(path), segments(path).len() as int)
}

/// The parts of a path.
pub open spec fn parts(path: Seq<char>) -> Seq<Seq<char>> {
    positions(path).map_values(|i: int| segments(path)[i])
}

/// The final part of a path, where that is a name.
pub open spec fn file_name(path: Seq<char>) -> Option<Seq<char>> {
    if parts(path).len() == 0 {
        None
    } else {
        let name = parts(path).last();
        if name.len() == 0 || name == "."@ || name == ".."@ {
            None
        } else {
            Some(name)
        }
    }
}

/// What follows the final `.` of a file name. There is none in a name without a
/// `.`, and none in one whose only `.` begins it.
pub open spec fn extension(path: Seq<char>) -> Option<Seq<char>> {
    match file_name(path) {
        None => None,
        Some(name) => {
            let around = pieces(name, Cut::At('.'));
            if around.len() == 1 || (around.len() == 2 && around[0].len() == 0) {
                None
            } else {
                Some(around.last())
            }
        },
    }
}

/// Whether the parts of a path begin with all the parts of `root`.
pub open spec fn lies_under(path: Seq<char>, root: Seq<char>) -> bool {
    parts(root).is_prefix_of(parts(path))
}

/// A path as seen from `root`: the text from the first part after those of
/// `root` to the last part. A path that does not lie under `root` stays as it is.
pub open spec fn relative(path: Seq<char>, root: Seq<char>) -> Seq<char> {
    let at = positions(path);
    let k = parts(root).len() as int;
    if !lies_under(path, root) {
        path
    } else if k == at.len() {
        Seq::empty()
    } else if at.last() == 0 && segments(path)[0].len() == 0 {
        "/"@
    } else {
        joined(segments(path).subrange(at[k], at.last() + 1), '/')
    }
}

/// The positions of parts lie among the segments and rise.
pub proof fn lemma_part_positions(segs: Seq<Seq<char>>, n: int)
    requires
        0 <= n <= segs.len(),
    ensures
        part_positions(segs, n).len() <= n,
        forall|j: int|
            0 <= j < part_positions(segs, n).len() ==> 0 <= #[trigger] part_positions(segs, n)[j]
                < n,
        forall|i: int, j: int|
            0 <= i < j < part_positions(segs, n).len() ==> #[trigger] part_positions(segs, n)[i]
                < #[trigger] part_positions(segs, n)[j],
    decreases n,
{
    if n > 0 {
        lemma_part_positions(segs, n - 1);
    }
}

/// The positions of the parts among the segments of a path.
fn find_parts(segs: &Vec<String>) -> (r: Vec<usize>)
    ensures
        r@.map_values(|i: usize| i as int) == part_positions(texts(segs@), segs@.len() as int),
        forall|j: int| 0 <= j < r@.len() ==> (#[trigger] r@[j]) < segs@.len(),
{
    let ghost all = texts(segs@);
    let mut r: Vec<usize> = Vec::new();
    let mut i: usize = 0;
    assert(r@.map_values(|i: usize| i as int) =~= part_positions(all, 0));
    while i < segs.len()
        invariant
            i <= segs@.len(),
            all == texts(segs@),
            r@.map_values(|i: usize| i as int) == part_positions(all, i as int),
            forall|j: int| 0 <= j < r@.len() ==> (#[trigger] r@[j]) < segs@.len(),
        decreases segs.len() - i,
    {
        let ghost before = r@.map_values(|i: usize| i as int);
        assert(all[i as int] == segs@[i as int]@);
        let empty: bool = segs[i].as_str().is_empty();
        let part: bool = if i == 0 {
            !empty || segs.len() > 1
        } else {
            !empty && !same_text(segs[i].as_str(), ".")
        };
        if part {
            r.push(i);
            assert(r@.map_values(|i: usize| i as int) =~= before.push(i as int));
        }
        i = i + 1;
    }
    r
}

/// The extension of the file that a path names.
pub fn path_extension(path: &str) -> (r: Option<String>)
    ensures
        match r {
            Some(e) => extension(path@) == Some(e@),
            None => extension(path@) is None,
        },
{
    let segs = split(path, Cut::At('/'));
    let at = find_parts(&segs);
    let ghost spots = at@.map_values(|i: usize| i as int);
    assert(spots == positions(path@));
    if at.len() == 0 {
        return None;
    }
    assert(spots[spots.len() - 1] == at@[at@.len() - 1] as int);
    let name: &String = &segs[at[at.len() - 1]];
    assert(parts(path@).last() == name@) by {
        assert(texts(segs@)[spots.last()] == segs@[spots.last()]@);
    }
    if name.as_str().is_empty() || same_text(name.as_str(), ".") || same_text(name.as_str(), "..") {
        return None;
    }
    let around = split(name.as_str(), Cut::At('.'));
    proof {
        law_pieces_rejoin(name@, '.');
        assert forall|i: int| 0 <= i < around@.len() implies texts(around@)[i] == #[trigger] around@[i]@ by {}
    }
    if around.len() == 1 || (around.len() == 2 && around[0].as_str().is_empty()) {
        return None;
    }
    Some(around[around.len() - 1].clone())
}

/// The path of a file relative to the source root, or the path itself where the
/// file does not lie under the root.
pub fn relative_path(path: &str, root: &str) -> (r: String)
    ensures
        r@ == relative(path@, root@),
{
    let segs = split(path, Cut::At('/'));
    let at = find_parts(&segs);
    let root_segs = split(root, Cut::At('/'));
    let root_at = find_parts(&root_segs);
    let ghost spots = at@.map_values(|i: usize| i as int);
    let ghost root_spots = root_at@.map_values(|i: usize| i as int);
    proof {
        lemma_part_positions(texts(segs@), segs@.len() as int);
        assert forall|j: int| 0 <= j < at@.len() implies parts(path@)[j]
            == segs@[#[trigger] at@[j] as int]@ by {
            assert(spots[j] == at@[j] as int);
            assert(texts(segs@)[spots[j]] == segs@[spots[j]]@);
        }
        assert forall|j: int| 0 <= j < root_at@.len() implies parts(root@)[j]
            == root_segs@[#[trigger] root_at@[j] as int]@ by {
            assert(root_spots[j] == root_at@[j] as int);
            assert(texts(root_segs@)[root_spots[j]] == root_segs@[root_spots[j]]@);
        }
    }
    let k: usize = root_at.len();
    if k > at.len() {
        return path.to_owned();
    }
    let mut j: usize = 0;
    while j < k
        invariant
            j <= k <= at@.len(),
            k == root_at@.len(),
            parts(path@).len() == at@.len(),
            parts(root@).len() == root_at@.len(),
            forall|i: int| 0 <= i < at@.len() ==> (#[trigger] at@[i]) < segs@.len(),
            forall|i: int| 0 <= i < root_at@.len() ==> (#[trigger] root_at@[i]) < root_segs@.len(),
            forall|i: int| 0 <= i < at@.len() ==> parts(path@)[i] == segs@[#[trigger] at@[i] as int]@,
            forall|i: int|
                0 <= i < root_at@.len() ==> parts(root@)[i]
                    == root_segs@[#[trigger] root_at@[i] as int]@,
            forall|i: int| 0 <= i < j ==> #[trigger] parts(path@)[i] == parts(root@)[i],
        decreases k - j,
    {
        if !same_text(segs[at[j]].as_str(), root_segs[root_at[j]].as_str()) {
            assert(parts(path@)[j as int] != parts(root@)[j as int]);
            return path.to_owned();
        }
        j = j + 1;
    }
    assert(parts(root@) =~= parts(path@).subrange(0, k as int));
    if k == at.len() {
        return String::new();
    }
    assert(spots[k as int] == at@[k as int] as int);
    assert(spots[spots.len() - 1] == at@[at@.len() - 1] as int);
    let last: usize = at[at.len() - 1];
    assert(texts(segs@)[0] == segs@[0]@);
    if last == 0 && segs[0].as_str().is_empty() {
        return "/".to_owned();
    }
    let mut rest: Vec<String> = Vec::new();
    let first: usize = at[k];
    let count: usize = segs.len();
    let mut i: usize = first;
    while i <= last
        invariant
            first <= i <= last + 1,
            last < count == segs@.len(),
            rest@ == segs@.subrange(first as int, i as int),
        decreases last + 1 - i,
    {
        rest.push(segs[i].clone());
        i = i + 1;
    }
    assert(texts(rest@) =~= segments(path@).subrange(first as int, last + 1));
    join(&rest, '/')
}

/// Whether one of the segments of a path is the given name.
pub fn has_segment(path: &str, name: &str) -> (r: bool)
    ensures
        r == segments(path@).contains(name@),
{
    let segs = split(path, Cut::At('/'));
    let mut i: usize = 0;
    while i < segs.len()
        invariant
            i <= segs@.len(),
            texts(segs@) == segments(path@),
            forall|j: int| 0 <= j < i ==> #[trigger] segments(path@)[j] != name@,
        decreases segs.len() - i,
    {
        assert(texts(segs@)[i as int] == segs@[i as int]@);
        if same_text(segs[i].as_str(), name) {
            return true;
        }
        i = i + 1;
    }
    false
}

/// The path of an entry below a root: a slash between the two, unless the root is
/// empty or ends in one.
pub open spec fn entry_path(root: Seq<char>, rel: Seq<char>) -> Seq<char> {
    if root.len() == 0 || root.last() == '/' {
        root + rel
    } else {
        root.push('/') + rel
    }
}

/// A path that begins and ends in a part of its own and not at the root.
pub open spec fn is_plain(rel: Seq<char>) -> bool {
    let segs = segments(rel);
    &&& segs[0].len() > 0 && segs[0] != "."@
    &&& segs.last().len() > 0 && segs.last() != "."@
}

/// Where the same segments are parts, they have the same positions.
pub proof fn lemma_same_parts(a: Seq<Seq<char>>, b: Seq<Seq<char>>, n: int)
    requires
        forall|i: int| 0 <= i < n ==> #[trigger] is_part(a, i) == is_part(b, i),
    ensures
        part_positions(a, n) == part_positions(b, n),
    decreases n,
{
    if n > 0 {
        assert(is_part(a, n - 1) == is_part(b, n - 1));
        lemma_same_parts(a, b, n - 1);
    }
}

proof fn lemma_later_parts(segs: Seq<Seq<char>>, n: int, m: int)
    requires
        0 <= n < m <= segs.len(),
        is_part(segs, n),
    ensures
        part_positions(segs, m).len() > part_positions(segs, n).len(),
        part_positions(segs, m)[part_positions(segs, n).len() as int] == n,
        forall|i: int|
            0 <= i < part_positions(segs, n).len() ==> #[trigger] part_positions(segs, m)[i]
                == part_positions(segs, n)[i],
    decreases m - n,
{
    if m > n + 1 {
        lemma_later_parts(segs, n, m - 1);
    }
}

/// Seen from its root, an entry below the root has the path that it has there.
pub proof fn law_relative_of_entry(root: Seq<char>, rel: Seq<char>)
    requires
        is_plain(rel),
    ensures
        relative(entry_path(root, rel), root) == rel,
{
    if root.len() == 0 {
        let segs = segments(rel);
        let m = segs.len() as int;
        assert(root + rel =~= rel);
        law_pieces_rejoin(rel, '/');
        assert(parts(root).len() == 0) by {
            assert(root =~= Seq::<char>::empty());
            assert(segments(root) =~= seq![root]);
            reveal_with_fuel(part_positions, 2);
        }
        assert(parts(root) =~= parts(rel).subrange(0, 0));
        lemma_later_parts(segs, 0, m);
        assert(is_part(segs, m - 1));
        assert(segs.subrange(0, m) =~= segs);
    } else {
        lemma_relative_of_entry(root, rel);
    }
}

proof fn lemma_relative_of_entry(root: Seq<char>, rel: Seq<char>)
    requires
        root.len() > 0,
        is_plain(rel),
    ensures
        relative(entry_path(root, rel), root) == rel,
{
    let path = entry_path(root, rel);
    let base = if root.last() == '/' {
        root.drop_last()
    } else {
        root
    };
    assert(path =~= base.push('/') + rel);
    let s = segments(base);
    let t = segments(rel);
    let n = s.len() as int;
    let m = t.len() as int;
    let all = segments(path);
    let root_segs = segments(root);
    lemma_pieces_apart(base, rel, '/');
    assert(all == s + t);
    law_pieces_rejoin(base, '/');
    law_pieces_rejoin(rel, '/');
    law_pieces_rejoin(root, '/');
    if root.last() == '/' {
        assert(root =~= base.push('/'));
        assert(root_segs =~= s.push(Seq::<char>::empty()));
    } else {
        assert(root_segs == s);
        assert(n == 1 ==> s[0] == base) by {
            assert(joined(s, '/') == base);
        }
    }
    assert forall|i: int| 0 <= i < n implies #[trigger] is_part(all, i) == is_part(root_segs, i) by {
        assert(all[i] == s[i]);
        assert(root_segs[i] == s[i]);
    }
    lemma_same_parts(all, root_segs, n);
    let at = positions(path);
    let k = part_positions(all, n).len() as int;
    assert(root_segs.len() > n ==> !is_part(root_segs, n));
    assert(positions(root) == part_positions(root_segs, n));
    assert(parts(root).len() == k);
    assert(all[n] == t[0]);
    assert(is_part(all, n));
    lemma_later_parts(all, n, n + m);
    lemma_part_positions(all, n);
    assert(all[n + m - 1] == t[m - 1]);
    assert(is_part(all, n + m - 1));
    assert(at.last() == n + m - 1);
    assert forall|i: int| 0 <= i < k implies parts(path)[i] == #[trigger] parts(root)[i] by {
        assert(positions(root)[i] == part_positions(all, n)[i]);
        assert(at[i] == part_positions(all, n)[i]);
        let p = at[i];
        assert(0 <= p < n);
        assert(all[p] == s[p] && root_segs[p] == s[p]);
    }
    assert(parts(root) =~= parts(path).subrange(0, k));
    assert(all.subrange(n, n + m) =~= t);
}

/// Whether a segment counts after the first.
spec fn is_solid(segment: Seq<char>) -> bool {
    segment.len() > 0 && segment != "."@
}

/// The parts among the first `n` segments.
spec fn parts_until(segs: Seq<Seq<char>>, n: int) -> Seq<Seq<char>> {
    part_positions(segs, n).map_values(|i: int| segs[i])
}

/// The segments that are parts wherever they do not come first.
spec fn solid(segs: Seq<Seq<char>>) -> Seq<Seq<char>>
    decreases segs.len(),
{
    if segs.len() == 0 {
        Seq::empty()
    } else if is_solid(segs.last()) {
        solid(segs.drop_last()).push(segs.last())
    } else {
        solid(segs.drop_last())
    }
}

proof fn lemma_parts_after(segs: Seq<Seq<char>>, a: int, n: int)
    requires
        1 <= a <= n <= segs.len(),
    ensures
        parts_until(segs, n) == parts_until(segs, a) + solid(segs.subrange(a, n)),
    decreases n - a,
{
    let rest = segs.subrange(a, n);
    if n == a {
        assert(parts_until(segs, n) =~= parts_until(segs, a) + solid(rest));
    } else {
        lemma_parts_after(segs, a, n - 1);
        assert(rest.drop_last() =~= segs.subrange(a, n - 1));
        assert(rest.last() == segs[n - 1]);
        assert(is_part(segs, n - 1) == is_solid(segs[n - 1]));
        if is_part(segs, n - 1) {
            assert(part_positions(segs, n) == part_positions(segs, n - 1).push(n - 1));
            assert(parts_until(segs, n) =~= parts_until(segs, n - 1).push(segs[n - 1]));
            assert(solid(rest) == solid(segs.subrange(a, n - 1)).push(segs[n - 1]));
        } else {
            assert(part_positions(segs, n) == part_positions(segs, n - 1));
        }
        assert(parts_until(segs, n) =~= parts_until(segs, a) + solid(rest));
    }
}

proof fn lemma_same_values(a: Seq<Seq<char>>, b: Seq<Seq<char>>, n: int)
    requires
        0 <= n <= a.len(),
        n <= b.len(),
        forall|i: int| 0 <= i < n ==> a[i] == b[i],
        n > 0 ==> is_part(a, 0) == is_part(b, 0),
    ensures
        parts_until(a, n) == parts_until(b, n),
{
    assert forall|i: int| 0 <= i < n implies #[trigger] is_part(a, i) == is_part(b, i) by {
        assert(a[i] == b[i]);
    }
    lemma_same_parts(a, b, n);
    lemma_part_positions(a, n);
    assert(parts_until(a, n) =~= parts_until(b, n));
}

/// The parts before a part are as many as come before it.
proof fn lemma_parts_before(segs: Seq<Seq<char>>, m: int, k: int)
    requires
        0 <= m <= segs.len(),
        0 <= k < part_positions(segs, m).len(),
    ensures
        part_positions(segs, part_positions(segs, m)[k]).len() == k,
        parts_until(segs, part_positions(segs, m)[k]) == parts_until(segs, m).take(k),
    decreases m,
{
    lemma_part_positions(segs, m);
    let before = part_positions(segs, m - 1);
    if k == part_positions(segs, m).len() - 1 && is_part(segs, m - 1) {
        assert(parts_until(segs, m - 1) =~= parts_until(segs, m).take(k));
    } else {
        lemma_parts_before(segs, m - 1, k);
        assert(part_positions(segs, m)[k] == before[k]);
        assert(parts_until(segs, m - 1).take(k) =~= parts_until(segs, m).take(k));
    }
}

proof fn lemma_no_part_after(segs: Seq<Seq<char>>, m: int)
    requires
        0 <= m <= segs.len(),
        part_positions(segs, m).len() > 0,
    ensures
        parts_until(segs, part_positions(segs, m).last() + 1) == parts_until(segs, m),
    decreases m,
{
    lemma_part_positions(segs, m);
    if !is_part(segs, m - 1) {
        lemma_no_part_after(segs, m - 1);
    }
}

/// Text joined from pieces without the dividing character has these pieces.
pub proof fn law_joined_pieces(list: Seq<Seq<char>>, c: char)
    requires
        list.len() > 0,
        forall|i: int| 0 <= i < list.len() ==> !(#[trigger] list[i]).contains(c),
    ensures
        pieces(joined(list, c), Cut::At(c)) == list,
    decreases list.len(),
{
    lemma_lone_piece(list.last(), c);
    if list.len() == 1 {
        assert(list =~= seq![list[0]]);
    } else {
        let front = list.drop_last();
        assert forall|i: int| 0 <= i < front.len() implies !(#[trigger] front[i]).contains(c) by {
            assert(front[i] == list[i]);
        }
        law_joined_pieces(front, c);
        lemma_pieces_apart(joined(front, c), list.last(), c);
        assert(front + seq![list.last()] =~= list);
    }
}

proof fn lemma_lone_piece(s: Seq<char>, c: char)
    requires
        !s.contains(c),
    ensures
        pieces(s, Cut::At(c)) == seq![s],
    decreases s.len(),
{
    if s.len() == 0 {
        assert(s =~= Seq::<char>::empty());
    } else {
        let front = s.drop_last();
        assert(!front.contains(c)) by {
            if front.contains(c) {
                let i = choose|i: int| 0 <= i < front.len() && front[i] == c;
                assert(s[i] == c);
            }
        }
        lemma_lone_piece(front, c);
        assert(s[s.len() - 1] != c);
        assert(front.push(s.last()) =~= s);
        assert(pieces(s, Cut::At(c)) =~= seq![s]);
    }
}

/// The parts of an entry below a root are those of the root and then those of the
/// entry's own path.
proof fn lemma_entry_parts(root: Seq<char>, rel: Seq<char>)
    requires
        root.len() > 0,
    ensures
        parts(entry_path(root, rel)) == parts(root) + solid(segments(rel)),
        parts(root).len() > 0,
{
    let base = if root.last() == '/' {
        root.drop_last()
    } else {
        root
    };
    let path = entry_path(root, rel);
    let s = segments(base);
    let t = segments(rel);
    let all = segments(path);
    let segs = segments(root);
    let n = s.len() as int;
    assert(path =~= base.push('/') + rel);
    lemma_pieces_apart(base, rel, '/');
    law_pieces_rejoin(base, '/');
    law_pieces_rejoin(rel, '/');
    law_pieces_rejoin(root, '/');
    assert(all == s + t);
    if root.last() == '/' {
        assert(root =~= base.push('/'));
        assert(segs =~= s.push(Seq::<char>::empty()));
        assert(!is_part(segs, n));
    } else {
        assert(segs == s);
        assert(n == 1 ==> s[0] == base) by {
            assert(joined(s, '/') == base);
        }
    }
    assert(all[0] == s[0] && segs[0] == s[0]);
    assert(is_part(all, 0) && is_part(segs, 0));
    lemma_same_values(all, segs, n);
    lemma_parts_after(all, n, all.len() as int);
    assert(all.subrange(n, all.len() as int) =~= t);
    assert(parts(root) == parts_until(segs, n));
    assert(parts(path) == parts_until(all, all.len() as int));
    lemma_parts_after(segs, 1, n);
    assert(part_positions(segs, 0).len() == 0);
    assert(parts_until(segs, 1).len() == 1);
}

proof fn lemma_entry_of_relative(path: Seq<char>, root: Seq<char>)
    requires
        root.len() > 0,
        lies_under(path, root),
    ensures
        parts(entry_path(root, relative(path, root))) == parts(path),
{
    let rel = relative(path, root);
    let at = positions(path);
    let segs = segments(path);
    let m = segs.len() as int;
    let k = parts(root).len() as int;
    lemma_entry_parts(root, rel);
    law_pieces_rejoin(path, '/');
    lemma_part_positions(segs, m);
    assert(parts(path) == parts_until(segs, m));
    if k == at.len() {
        assert(parts(root) =~= parts(path));
        assert(segments(rel) == seq![Seq::<char>::empty()]);
        assert(solid(segments(rel)) =~= Seq::<Seq<char>>::empty()) by {
            reveal_with_fuel(solid, 2);
        }
    } else {
        let first = at[k];
        let last = at.last();
        assert(0 <= at[0] < at[k]);
        assert(first <= last < m) by {
            if k < at.len() - 1 {
                assert(at[k] < at[at.len() - 1]);
            }
        }
        let slice = segs.subrange(first, last + 1);
        assert forall|i: int| 0 <= i < slice.len() implies !(#[trigger] slice[i]).contains('/') by {
            assert(slice[i] == segs[first + i]);
        }
        assert(rel == joined(slice, '/'));
        law_joined_pieces(slice, '/');
        lemma_parts_after(segs, first, last + 1);
        lemma_no_part_after(segs, m);
        lemma_parts_before(segs, m, k);
        assert(parts(path).take(k) =~= parts(root));
    }
}

proof fn lemma_relative_to_nothing(path: Seq<char>)
    ensures
        parts(relative(path, Seq::empty())) == parts(path),
{
    let root = Seq::<char>::empty();
    let rel = relative(path, root);
    let at = positions(path);
    let segs = segments(path);
    let m = segs.len() as int;
    law_pieces_rejoin(path, '/');
    lemma_part_positions(segs, m);
    assert(parts(root).len() == 0) by {
        assert(segments(root) =~= seq![root]);
        reveal_with_fuel(part_positions, 2);
    }
    assert(lies_under(path, root)) by {
        assert(parts(root) =~= parts(path).subrange(0, 0));
    }
    if at.len() == 0 {
        assert(rel =~= root);
        assert(parts(rel) =~= parts(path));
    } else {
        let last = at.last();
        assert(is_part(segs, 0)) by {
            if !is_part(segs, 0) {
                assert(m == 1);
                reveal_with_fuel(part_positions, 2);
            }
        }
        lemma_later_parts(segs, 0, m);
        assert(at[0] == 0);
        lemma_no_part_after(segs, m);
        if last == 0 && segs[0].len() == 0 {
            let slash = "/"@;
            reveal_strlit("/");
            assert(slash =~= root.push('/') + root);
            lemma_pieces_apart(root, root, '/');
            assert(segments(slash) =~= seq![root, root]);
            assert(parts(slash) =~= seq![root]) by {
                reveal_with_fuel(part_positions, 3);
            }
            assert(at =~= seq![0int]) by {
                if at.len() > 1 {
                    assert(at[0] < at[at.len() - 1]);
                }
            }
            assert(segs[0] =~= root);
            assert(parts(path)[0] == segs[at[0]]);
            assert(parts(path) =~= seq![root]);
        } else {
            let slice = segs.subrange(0, last + 1);
            assert forall|i: int| 0 <= i < slice.len() implies !(#[trigger] slice[i]).contains(
                '/',
            ) by {
                assert(slice[i] == segs[i]);
            }
            law_joined_pieces(slice, '/');
            assert(segments(rel) == slice);
            lemma_same_values(slice, segs, last + 1);
        }
    }
}

/// A path that lies under a root is that of the entry below the root with the path
/// seen from the root: both have the same parts.
pub proof fn law_entry_of_relative(path: Seq<char>, root: Seq<char>)
    requires
        lies_under(path, root),
    ensures
        parts(entry_path(root, relative(path, root))) == parts(path),
{
    if root.len() == 0 {
        let rel = relative(path, root);
        assert(root =~= Seq::<char>::empty());
        assert(root + rel =~= rel);
        lemma_relative_to_nothing(path);
    } else {
        lemma_entry_of_relative(path, root);
    }
}

/// Two paths under one root that are the same seen from the root have the same parts.
pub proof fn law_relative_tells_apart(one: Seq<char>, other: Seq<char>, root: Seq<char>)
    requires
        lies_under(one, root),
        lies_under(other, root),
        relative(one, root) == relative(other, root),
    ensures
        parts(one) == parts(other),
{
    law_entry_of_relative(one, root);
    law_entry_of_relative(other, root);
}

} // verus!
