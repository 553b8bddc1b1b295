use codekb_ingest::paths::{has_segment, path_extension, relative_path};
use std::path::Path;

#[test]
fn relative_path_of_an_entry_below_the_root() {
    assert_eq!(relative_path("/repo/src/a.rs", "/repo"), "src/a.rs");
    assert_eq!(relative_path("/repo/src/a.rs", "/repo/"), "src/a.rs");
    assert_eq!(relative_path("./src/a.rs", "."), "src/a.rs");
    assert_eq!(relative_path("/a.rs", "/"), "a.rs");
}

#[test]
fn relative_path_outside_the_root_stays() {
    assert_eq!(relative_path("/other/a.rs", "/repo"), "/other/a.rs");
    assert_eq!(relative_path("/repository/a.rs", "/repo"), "/repository/a.rs");
    assert_eq!(relative_path("repo/a.rs", "/repo"), "repo/a.rs");
    assert_eq!(relative_path("/repo", "/repo/src"), "/repo");
}

#[test]
fn paths_are_taken_as_the_standard_library_takes_them() {
    let paths = [
        "", "/", "//", ".", "./", "..", "a", "a/", "/a", "//a", "a//b", "a/./b", "./a", "/./a", "/a/.",
        "a/b/", "/a/b/c.rs", "a/../b.rs", "a/..", ".a", "..a", "a.b.c", "a.", "é.rs", "a/b.tar.gz", "/.",
        "a/./.", "./.", "a/b/c//d/./e.md/",
    ];
    for path in paths {
        let std_ext = Path::new(path)
            .extension()
            .map(|e| e.to_string_lossy().into_owned());
        assert_eq!(path_extension(path), std_ext, "extension of {path:?}");
        for root in paths {
            let std_rel = Path::new(path)
                .strip_prefix(root)
                .unwrap_or(Path::new(path))
                .to_string_lossy()
                .into_owned();
            assert_eq!(relative_path(path, root), std_rel, "{path:?} from {root:?}");
        }
    }
}

#[test]
fn a_segment_is_a_whole_name() {
    assert!(has_segment("/repo/.helios-kb/db", ".helios-kb"));
    assert!(has_segment(".helios-kb", ".helios-kb"));
    assert!(!has_segment("/repo/x.helios-kb/db", ".helios-kb"));
    assert!(!has_segment("/repo/.helios-kb2", ".helios-kb"));
}

#[test]
fn joining_a_relative_path_to_its_root_gives_the_path_back() {
    for (path, root) in [
        ("/repo/src/a.rs", "/repo"),
        ("/repo//src/./a.rs/", "/repo/"),
        ("/repo", "/repo"),
        ("./a/b", "."),
        ("/a", "/"),
        ("a/../b", "a"),
        ("a/b", ""),
    ] {
        assert!(Path::new(path).starts_with(root));
        assert_eq!(Path::new(root).join(relative_path(path, root)), Path::new(path));
    }
}
