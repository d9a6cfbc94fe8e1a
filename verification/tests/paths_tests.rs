//! Path resolution: the normalisation that keys the processed set.

use cnctd::paths::resolve_path;

#[test]
fn plain_child_path() {
    assert_eq!(resolve_path("/home/user/proj", "sub"), "/home/user/proj/sub");
}

#[test]
fn parent_references_are_normalised() {
    assert_eq!(resolve_path("/home/user/proj", "../dep_a"), "/home/user/dep_a");
    assert_eq!(resolve_path("/home/user/proj", "../../other/lib"), "/home/other/lib");
}

#[test]
fn two_routes_to_one_directory_resolve_equal() {
    // the resolution that makes diamond deduplication work
    let via_a = resolve_path("/r/dep_a", "../shared");
    let via_b = resolve_path("/r/dep_b", "../shared");
    assert_eq!(via_a, via_b);
    assert_eq!(via_a, "/r/shared");
}

#[test]
fn dot_and_empty_segments_are_skipped() {
    assert_eq!(resolve_path("/a//b", "./c"), "/a/b/c");
    assert_eq!(resolve_path("/a/./b/", "c//d"), "/a/b/c/d");
}

#[test]
fn parent_of_root_stays_at_root() {
    assert_eq!(resolve_path("/", ".."), "/");
    assert_eq!(resolve_path("/a", "../../.."), "/");
}

#[test]
fn relative_base_is_normalised_too() {
    assert_eq!(resolve_path("proj", "../dep"), "/dep");
}
