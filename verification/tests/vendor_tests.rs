//! Engine tests over in-memory source-tree snapshots.

use cnctd::manifest::{Dep, DepSource, Manifest};
use cnctd::vendor::{FsDir, FsTree, LocalDependencies, VendorError};

fn dep(name: &str, source: DepSource) -> Dep {
    Dep { name: String::from(name), source }
}

fn registry_dep(name: &str) -> Dep {
    dep(name, DepSource::Registry)
}

fn path_dep(name: &str, path: &str) -> Dep {
    dep(name, DepSource::PathTable { path: String::from(path) })
}

fn inline_dep(name: &str, path: &str) -> Dep {
    dep(name, DepSource::PathInline { path: String::from(path) })
}

fn fs_dir(path: &str, deps: Vec<Dep>) -> FsDir {
    FsDir { path: String::from(path), manifest: Manifest { deps }, text: String::new() }
}

/// Root depends on `dep_a`, which depends on `dep_b`: both are staged,
/// each once, with every local path rewritten to `../<name>`.
#[test]
fn chain_is_staged_and_rewritten() {
    let tree = FsTree {
        dirs: vec![
            fs_dir("/src/root", vec![path_dep("dep_a", "../dep_a"), registry_dep("serde")]),
            fs_dir("/src/dep_a", vec![path_dep("dep_b", "../dep_b")]),
            fs_dir("/src/dep_b", vec![registry_dep("anyhow")]),
        ],
    };
    let staged = LocalDependencies::vendor(&tree, &String::from("/src/root")).unwrap();

    assert_eq!(staged.entries.len(), 2);
    assert_eq!(staged.entries[0].name, "dep_a");
    assert_eq!(staged.entries[0].orig_dir, "/src/dep_a");
    assert_eq!(staged.entries[1].name, "dep_b");
    assert_eq!(staged.entries[1].orig_dir, "/src/dep_b");

    // the root manifest's local path points at the staged sibling
    assert_eq!(
        staged.root_manifest.deps[0].source,
        DepSource::PathTable { path: String::from("../dep_a") }
    );
    // the registry entry is untouched
    assert_eq!(staged.root_manifest.deps[1].source, DepSource::Registry);
    // dep_a's manifest is rewritten too
    assert_eq!(
        staged.entries[0].manifest.deps[0].source,
        DepSource::PathTable { path: String::from("../dep_b") }
    );
    // dep_b's manifest had no local paths and is unchanged
    assert_eq!(staged.entries[1].manifest.deps[0].source, DepSource::Registry);
}

/// Two manifests reach `shared_lib` through different relative routes
/// that resolve to the same directory: it is staged exactly once.
#[test]
fn diamond_is_staged_once() {
    let tree = FsTree {
        dirs: vec![
            fs_dir(
                "/work/root",
                vec![path_dep("dep_a", "../dep_a"), path_dep("shared_lib", "../shared_lib")],
            ),
            fs_dir("/work/dep_a", vec![path_dep("shared_lib", "../shared_lib")]),
            fs_dir("/work/shared_lib", vec![]),
        ],
    };
    let staged = LocalDependencies::vendor(&tree, &String::from("/work/root")).unwrap();

    let shared: Vec<_> =
        staged.entries.iter().filter(|e| e.orig_dir == "/work/shared_lib").collect();
    assert_eq!(shared.len(), 1);
    assert_eq!(staged.entries.len(), 2);
    // both referencing manifests point at the same staged sibling
    assert_eq!(
        staged.entries[0].manifest.deps[0].source,
        DepSource::PathTable { path: String::from("../shared_lib") }
    );
}

/// Two sibling manifests name the same package at the same resolved
/// path: the depth-first walk stages it on first encounter.
#[test]
fn sibling_references_share_one_copy() {
    let tree = FsTree {
        dirs: vec![
            fs_dir("/p/root", vec![path_dep("left", "../left"), path_dep("right", "../right")]),
            fs_dir("/p/left", vec![path_dep("shared_lib", "../shared_lib")]),
            fs_dir("/p/right", vec![path_dep("shared_lib", "../shared_lib")]),
            fs_dir("/p/shared_lib", vec![]),
        ],
    };
    let staged = LocalDependencies::vendor(&tree, &String::from("/p/root")).unwrap();
    let names: Vec<&str> = staged.entries.iter().map(|e| e.name.as_str()).collect();
    assert_eq!(names, vec!["left", "shared_lib", "right"]);
    let origs: Vec<&str> = staged.entries.iter().map(|e| e.orig_dir.as_str()).collect();
    assert!(origs.contains(&"/p/shared_lib"));
    assert_eq!(origs.iter().filter(|o| **o == "/p/shared_lib").count(), 1);
}

/// Running the engine twice over an unchanged snapshot yields identical
/// staged models.
#[test]
fn runs_are_idempotent() {
    let tree = FsTree {
        dirs: vec![
            fs_dir("/src/root", vec![inline_dep("dep_a", "../dep_a")]),
            fs_dir("/src/dep_a", vec![path_dep("dep_b", "../dep_b")]),
            fs_dir("/src/dep_b", vec![]),
        ],
    };
    let root = String::from("/src/root");
    let first = LocalDependencies::vendor(&tree, &root).unwrap();
    let second = LocalDependencies::vendor(&tree, &root).unwrap();
    assert_eq!(first, second);
}

/// The snapshot is untouched by a run: the source manifests keep their
/// content.
#[test]
fn source_tree_is_not_mutated() {
    let tree = FsTree {
        dirs: vec![
            fs_dir("/src/root", vec![path_dep("dep_a", "../dep_a")]),
            fs_dir("/src/dep_a", vec![]),
        ],
    };
    let before = tree.clone();
    let _ = LocalDependencies::vendor(&tree, &String::from("/src/root")).unwrap();
    assert_eq!(tree, before);
}

/// A local dependency whose resolved directory is missing aborts the
/// run with a read error naming that directory.
#[test]
fn missing_dependency_aborts() {
    let tree = FsTree {
        dirs: vec![fs_dir("/src/root", vec![path_dep("ghost", "../ghost")])],
    };
    let err = LocalDependencies::vendor(&tree, &String::from("/src/root")).unwrap_err();
    assert_eq!(err, VendorError::ManifestRead { path: String::from("/src/ghost") });
}

/// A missing root manifest aborts immediately.
#[test]
fn missing_root_aborts() {
    let tree = FsTree { dirs: vec![] };
    let err = LocalDependencies::vendor(&tree, &String::from("/src/root")).unwrap_err();
    assert_eq!(err, VendorError::ManifestRead { path: String::from("/src/root") });
}

/// An inline-table path keeps its shape when rewritten.
#[test]
fn inline_shape_is_kept() {
    let tree = FsTree {
        dirs: vec![
            fs_dir("/a/root", vec![inline_dep("dep_a", "../dep_a")]),
            fs_dir("/a/dep_a", vec![]),
        ],
    };
    let staged = LocalDependencies::vendor(&tree, &String::from("/a/root")).unwrap();
    assert_eq!(
        staged.root_manifest.deps[0].source,
        DepSource::PathInline { path: String::from("../dep_a") }
    );
}

/// A dependency graph with a cycle still terminates: each directory is
/// processed once.
#[test]
fn cycle_terminates() {
    let tree = FsTree {
        dirs: vec![
            fs_dir("/c/root", vec![path_dep("dep_a", "../dep_a")]),
            fs_dir("/c/dep_a", vec![path_dep("root", "../root")]),
        ],
    };
    let staged = LocalDependencies::vendor(&tree, &String::from("/c/root")).unwrap();
    // the cycle back to the root stages the root itself under its
    // dependency name, once
    assert_eq!(staged.entries.len(), 2);
    assert_eq!(staged.entries[0].orig_dir, "/c/dep_a");
    assert_eq!(staged.entries[1].orig_dir, "/c/root");
}
