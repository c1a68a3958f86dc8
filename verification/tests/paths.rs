use peek::paths::is_root_path;
use std::path::Path;

#[test]
fn root_test_matches_path_equality() {
    for p in ["/", "//", "/.", "/./", "/./.", "///.//", "", ".", "/a", "/..", "a/", "/.a", "/a/.", "./", "/. "] {
        assert_eq!(is_root_path(p), Path::new(p) == Path::new("/"), "{:?}", p);
    }
}

#[test]
fn join_and_parent_behave_as_stated() {
    assert_eq!(Path::new("/").join("x").to_string_lossy(), "/x");
    assert_eq!(Path::new("/a").join("x").to_string_lossy(), "/a/x");
    assert_eq!(Path::new("/a/").join("x").to_string_lossy(), "/a/x");
    assert_eq!(Path::new("/a").join("/b").to_string_lossy(), "/b");
    assert_eq!(Path::new("/a/b").parent().unwrap().to_string_lossy(), "/a");
    assert_eq!(Path::new("/a").parent().unwrap().to_string_lossy(), "/");
    assert!(Path::new("/").parent().is_none());
}

#[test]
fn join_with_empty_parts_and_parent_of_dotted_paths() {
    assert_eq!(Path::new("").join("x").to_string_lossy(), "x");
    assert_eq!(Path::new("/a").join("").to_string_lossy(), "/a/");
    assert_eq!(Path::new("/x/.").parent().unwrap().to_string_lossy(), "/");
    let entered = Path::new("/x/.").join("docs");
    let back = entered.parent().unwrap();
    assert_eq!(back, Path::new("/x"));
    assert_eq!(
        back.components().collect::<Vec<_>>(),
        Path::new("/x/.").components().collect::<Vec<_>>()
    );
}
