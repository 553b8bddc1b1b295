//! What holds of extensions, segments and file kinds, for every path.

use crate::classify::{kind_of, FileKind};
use crate::paths::{
    extension, file_name, is_part, lemma_part_positions, lemma_same_parts, lies_under, part_positions,
    parts, relative, segments,
};
use crate::text::{joined, law_pieces_rejoin, lemma_pieces_apart, lowered, pieces, Cut};
use crate::text_laws::{law_joined, law_pieces};
use vstd::prelude::*;

verus! {

proof fn lemma_named(dir: Seq<char>, name: Seq<char>)
    requires
        name.len() > 0,
        !name.contains('/'),
        name != "."@,
        name != ".."@,
    ensures
        file_name(name) == Some(name),
        file_name(dir.push('/') + name) == Some(name),
{
    assert forall|i: int| 0 <= i < name.len() implies name[i] != '/' by {}
    law_pieces(name, '/', Seq::empty(), Cut::At('/'));
    assert(segments(name) == seq![name]);
    let one = seq![name];
    assert(is_part(one, 0));
    assert(part_positions(one, 1) =~= seq![0int]) by {
        reveal_with_fuel(part_positions, 2);
    }
    assert(parts(name).last() == name);
    let path = dir.push('/') + name;
    lemma_pieces_apart(dir, name, '/');
    law_pieces_rejoin(dir, '/');
    let all = segments(path);
    let n = segments(dir).len() as int;
    assert(all == segments(dir) + one);
    assert(all[n] == name);
    assert(is_part(all, n));
    assert(part_positions(all, n + 1) == part_positions(all, n).push(n));
    assert(parts(path).last() == name);
}

/// The extension of a file is what follows the last dot of its name, in whatever
/// directory it lies.
pub proof fn law_extension_follows_the_last_dot(dir: Seq<char>, stem: Seq<char>, ext: Seq<char>)
    requires
        stem.len() > 0,
        ext.len() > 0,
        !stem.contains('/'),
        !ext.contains('/'),
        !ext.contains('.'),
    ensures
        extension(stem.push('.') + ext) == Some(ext),
        extension(dir.push('/') + (stem.push('.') + ext)) == Some(ext),
{
    let name = stem.push('.') + ext;
    assert(!name.contains('/')) by {
        if name.contains('/') {
            let i = choose|i: int| 0 <= i < name.len() && name[i] == '/';
            if i < stem.len() {
                assert(stem[i] == '/');
            } else if i > stem.len() {
                assert(ext[i - stem.len() - 1] == '/');
            }
        }
    }
    assert(name != "."@ && name != ".."@) by {
        reveal_strlit(".");
        reveal_strlit("..");
        assert(name.len() >= 3);
    }
    lemma_named(dir, name);
    assert forall|i: int| 0 <= i < ext.len() implies ext[i] != '.' by {}
    law_pieces(stem, '.', ext, Cut::At('.'));
    law_pieces(ext, '.', Seq::empty(), Cut::At('.'));
    law_pieces_rejoin(stem, '.');
    let around = pieces(name, Cut::At('.'));
    assert(around == pieces(stem, Cut::At('.')) + seq![ext]);
    assert(around.last() == ext);
    if around.len() == 2 && around[0].len() == 0 {
        let front = pieces(stem, Cut::At('.'));
        assert(front.len() == 1 && around[0] == front[0]);
        assert(joined(front, '.') == front[0]);
    }
}

/// A file whose name has no dot, or only one and that at its beginning, has no
/// extension.
pub proof fn law_names_without_extension(dir: Seq<char>, name: Seq<char>)
    requires
        name.len() > 0,
        !name.contains('/'),
        !name.contains('.'),
    ensures
        extension(name) is None,
        extension(dir.push('/') + name) is None,
        extension(seq!['.'] + name) is None,
        extension(dir.push('/') + (seq!['.'] + name)) is None,
{
    reveal_strlit(".");
    reveal_strlit("..");
    assert forall|i: int| 0 <= i < name.len() implies name[i] != '.' by {}
    assert(name != "."@ && name != ".."@) by {
        assert(name[0] != '.');
        assert("."@[0] == '.');
        assert(".."@[0] == '.');
    }
    lemma_named(dir, name);
    law_pieces(name, '.', Seq::empty(), Cut::At('.'));
    let hidden = seq!['.'] + name;
    assert(!hidden.contains('/')) by {
        if hidden.contains('/') {
            let i = choose|i: int| 0 <= i < hidden.len() && hidden[i] == '/';
            assert(name[i - 1] == '/');
        }
    }
    assert(hidden != ".."@) by {
        assert(hidden[1] != '.');
        assert(".."@[1] == '.');
    }
    assert(hidden != "."@) by {
        assert(hidden.len() >= 2);
    }
    lemma_named(dir, hidden);
    let empty = Seq::<char>::empty();
    assert(hidden =~= empty.push('.') + name);
    law_pieces(empty, '.', name, Cut::At('.'));
    assert(pieces(hidden, Cut::At('.')) =~= seq![empty, name]);
}

/// A slash at the end of a path makes no difference to its parts, to its extension and
/// to its kind.
pub proof fn law_trailing_slash(path: Seq<char>)
    requires
        path.len() > 0,
    ensures
        parts(path.push('/')) == parts(path),
        extension(path.push('/')) == extension(path),
        kind_of(path.push('/')) == kind_of(path),
{
    let none = Seq::<char>::empty();
    let segs = segments(path);
    let all = segments(path.push('/'));
    let n = segs.len() as int;
    law_pieces_rejoin(path, '/');
    law_pieces(path, '/', none, Cut::At('/'));
    law_pieces(none, '/', none, Cut::At('/'));
    assert(path.push('/') + none =~= path.push('/'));
    assert(all =~= segs.push(none));
    assert(n == 1 ==> segs[0] == path) by {
        assert(joined(segs, '/') == path);
    }
    assert forall|i: int| 0 <= i < n implies #[trigger] is_part(all, i) == is_part(segs, i) by {
        assert(all[i] == segs[i]);
    }
    lemma_same_parts(all, segs, n);
    assert(all[n] == none);
    assert(!is_part(all, n));
    assert(part_positions(all, n + 1) == part_positions(all, n));
    lemma_part_positions(segs, n);
    assert(parts(path.push('/')) =~= parts(path));
}

/// A path that does not lie under a root is not shortened.
pub proof fn law_outside_paths_stay(path: Seq<char>, root: Seq<char>)
    requires
        !(exists|i: int| 0 <= i <= parts(path).len() && #[trigger] parts(path).take(i) == parts(root)),
    ensures
        relative(path, root) == path,
{
    if lies_under(path, root) {
        let k = parts(root).len() as int;
        assert(parts(path).take(k) =~= parts(root));
    }
}

/// Whether text stands in a path between slashes or its ends.
pub open spec fn stands_between_slashes(
    before: Seq<char>,
    after: Seq<char>,
) -> bool {
    (before.len() == 0 || before.last() == '/') && (after.len() == 0 || after[0] == '/')
}

/// The segments of a path are what stands in it between slashes or its ends.
pub proof fn law_segments_stand_between_slashes(path: Seq<char>, name: Seq<char>)
    requires
        !name.contains('/'),
    ensures
        segments(path).contains(name) <==> exists|before: Seq<char>, after: Seq<char>|
            #[trigger] stands_between_slashes(before, after) && path == before + name + after,
{
    let segs = segments(path);
    let none = Seq::<char>::empty();
    law_pieces_rejoin(path, '/');
    if segs.contains(name) {
        let i = choose|i: int| 0 <= i < segs.len() && segs[i] == name;
        let a = segs.take(i);
        let b = segs.skip(i + 1);
        let one = seq![name];
        assert(segs =~= a + one + b);
        assert(a + one + b =~= a + (one + b));
        law_joined(a, one + b, name, '/');
        law_joined(one, b, name, '/');
        let before = if a.len() == 0 {
            none
        } else {
            joined(a, '/').push('/')
        };
        let after = if b.len() == 0 {
            none
        } else {
            seq!['/'] + joined(b, '/')
        };
        assert(one + b =~= if b.len() == 0 {
            one
        } else {
            one + b
        });
        assert(joined(one + b, '/') =~= name + after);
        if a.len() == 0 {
            assert(segs =~= one + b);
        }
        assert(path =~= before + name + after);
        assert(stands_between_slashes(before, after));
    }
    if exists|before: Seq<char>, after: Seq<char>| #[trigger]
        stands_between_slashes(before, after) && path == before + name + after {
        let (before, after) = choose|before: Seq<char>, after: Seq<char>| #[trigger]
            stands_between_slashes(before, after) && path == before + name + after;
        assert forall|i: int| 0 <= i < name.len() implies name[i] != '/' by {}
        let tail = name + after;
        let rest = after.drop_first();
        law_pieces(name, '/', rest, Cut::At('/'));
        if after.len() > 0 {
            assert(tail =~= name.push('/') + rest);
        } else {
            assert(tail =~= name);
        }
        assert(pieces(tail, Cut::At('/'))[0] == name);
        if before.len() > 0 {
            let front = before.drop_last();
            assert(path =~= front.push('/') + tail);
            law_pieces(front, '/', tail, Cut::At('/'));
            assert(segs[pieces(front, Cut::At('/')).len() as int] == name);
        } else {
            assert(path =~= tail);
            assert(segs[0] == name);
        }
    }
}

/// A file is indexed by its extension, in whatever directory it lies and whatever the
/// case of the letters: these extensions are code, Markdown, a notebook, text and
/// documents, and a file with any other is skipped.
pub proof fn law_kinds(dir: Seq<char>, stem: Seq<char>, ext: Seq<char>)
    requires
        stem.len() > 0,
        ext.len() > 0,
        !stem.contains('/'),
        !ext.contains('/'),
        !ext.contains('.'),
    ensures
        ({
            let kind = kind_of(dir.push('/') + (stem.push('.') + ext));
            let e = lowered(ext);
            &&& kind_of(stem.push('.') + ext) == kind
            &&& e == "rs"@ ==> kind == FileKind::Code("rust"@)
            &&& e == "py"@ ==> kind == FileKind::Code("python"@)
            &&& e == "ts"@ ==> kind == FileKind::Code("typescript"@)
            &&& e == "tsx"@ ==> kind == FileKind::Code("tsx"@)
            &&& e == "js"@ || e == "mjs"@ || e == "cjs"@ ==> kind == FileKind::Code("javascript"@)
            &&& e == "go"@ ==> kind == FileKind::Code("go"@)
            &&& e == "sql"@ ==> kind == FileKind::Code("sql"@)
            &&& e == "md"@ || e == "markdown"@ ==> kind == FileKind::CodeAndDoc("markdown"@)
            &&& e == "ipynb"@ ==> kind == FileKind::Notebook
            &&& e == "graphql"@ || e == "gql"@ || e == "proto"@ || e == "thrift"@ || e == "txt"@ || e
                == "rst"@ || e == "tex"@ || e == "org"@ || e == "log"@ || e == "toml"@ || e
                == "yaml"@ || e == "yml"@ || e == "json"@ || e == "ini"@ || e == "cfg"@ ==> kind
                == FileKind::Text
            &&& e == "pdf"@ ==> kind == FileKind::Pdf
            &&& e == "docx"@ ==> kind == FileKind::Docx
            &&& e == "xlsx"@ || e == "xlsm"@ ==> kind == FileKind::Xlsx
            &&& kind == FileKind::Skip <==> !(e == "rs"@ || e == "py"@ || e == "ts"@
                || e == "tsx"@ || e == "js"@ || e == "mjs"@ || e == "cjs"@ || e == "go"@
                || e == "sql"@ || e == "md"@ || e == "markdown"@ || e == "ipynb"@
                || e == "graphql"@ || e == "gql"@ || e == "proto"@ || e == "thrift"@
                || e == "txt"@ || e == "rst"@ || e == "tex"@ || e == "org"@ || e == "log"@
                || e == "toml"@ || e == "yaml"@ || e == "yml"@ || e == "json"@ || e == "ini"@
                || e == "cfg"@ || e == "pdf"@ || e == "docx"@ || e == "xlsx"@ || e == "xlsm"@)
        }),
{
    law_extension_follows_the_last_dot(dir, stem, ext);
    reveal_strlit("rs");
    reveal_strlit("py");
    reveal_strlit("ts");
    reveal_strlit("tsx");
    reveal_strlit("js");
    reveal_strlit("mjs");
    reveal_strlit("cjs");
    reveal_strlit("go");
    reveal_strlit("sql");
    reveal_strlit("md");
    reveal_strlit("markdown");
    reveal_strlit("ipynb");
    reveal_strlit("graphql");
    reveal_strlit("gql");
    reveal_strlit("proto");
    reveal_strlit("thrift");
    reveal_strlit("txt");
    reveal_strlit("rst");
    reveal_strlit("tex");
    reveal_strlit("org");
    reveal_strlit("log");
    reveal_strlit("toml");
    reveal_strlit("yaml");
    reveal_strlit("yml");
    reveal_strlit("json");
    reveal_strlit("ini");
    reveal_strlit("cfg");
    reveal_strlit("pdf");
    reveal_strlit("docx");
    reveal_strlit("xlsx");
    reveal_strlit("xlsm");
    assert("rs"@ =~= seq!['r', 's']);
    assert("py"@ =~= seq!['p', 'y']);
    assert("ts"@ =~= seq!['t', 's']);
    assert("tsx"@ =~= seq!['t', 's', 'x']);
    assert("js"@ =~= seq!['j', 's']);
    assert("mjs"@ =~= seq!['m', 'j', 's']);
    assert("cjs"@ =~= seq!['c', 'j', 's']);
    assert("go"@ =~= seq!['g', 'o']);
    assert("sql"@ =~= seq!['s', 'q', 'l']);
    assert("md"@ =~= seq!['m', 'd']);
    assert("markdown"@ =~= seq!['m', 'a', 'r', 'k', 'd', 'o', 'w', 'n']);
    assert("ipynb"@ =~= seq!['i', 'p', 'y', 'n', 'b']);
    assert("graphql"@ =~= seq!['g', 'r', 'a', 'p', 'h', 'q', 'l']);
    assert("gql"@ =~= seq!['g', 'q', 'l']);
    assert("proto"@ =~= seq!['p', 'r', 'o', 't', 'o']);
    assert("thrift"@ =~= seq!['t', 'h', 'r', 'i', 'f', 't']);
    assert("txt"@ =~= seq!['t', 'x', 't']);
    assert("rst"@ =~= seq!['r', 's', 't']);
    assert("tex"@ =~= seq!['t', 'e', 'x']);
    assert("org"@ =~= seq!['o', 'r', 'g']);
    assert("log"@ =~= seq!['l', 'o', 'g']);
    assert("toml"@ =~= seq!['t', 'o', 'm', 'l']);
    assert("yaml"@ =~= seq!['y', 'a', 'm', 'l']);
    assert("yml"@ =~= seq!['y', 'm', 'l']);
    assert("json"@ =~= seq!['j', 's', 'o', 'n']);
    assert("ini"@ =~= seq!['i', 'n', 'i']);
    assert("cfg"@ =~= seq!['c', 'f', 'g']);
    assert("pdf"@ =~= seq!['p', 'd', 'f']);
    assert("docx"@ =~= seq!['d', 'o', 'c', 'x']);
    assert("xlsx"@ =~= seq!['x', 'l', 's', 'x']);
    assert("xlsm"@ =~= seq!['x', 'l', 's', 'm']);
}

/// A file without an extension is skipped.
pub proof fn law_files_without_extension_are_skipped(dir: Seq<char>, name: Seq<char>)
    requires
        name.len() > 0,
        !name.contains('/'),
        !name.contains('.'),
    ensures
        kind_of(dir.push('/') + name) == FileKind::Skip,
        kind_of(dir.push('/') + (seq!['.'] + name)) == FileKind::Skip,
{
    law_names_without_extension(dir, name);
}

} // verus!
