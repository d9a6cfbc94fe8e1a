//! The staging plan: what a vendoring run does to the disk.
//!
//! The engine's result is a model; this module turns it into the exact
//! list of filesystem actions the caller performs, in order: destroy and
//! recreate the staging directory, write the rewritten root manifest,
//! and, for each staged package in discovery order, copy its original
//! directory tree verbatim and then write its rewritten manifest over
//! the copy.  Every action's target lies inside the staging directory —
//! the original source tree is only ever read.

use vstd::prelude::*;

use crate::manifest::rewrite_deps;
use crate::toml_io::rewrite_manifest_text;
use crate::toml_io::toml_doc_model;
use crate::vendor::FsTree;
use crate::vendor::Staged;
use crate::vendor::VendorError;
use crate::vendor::tree_dir_at;

verus! {

/// One filesystem action of a vendoring run.
#[derive(Debug, Clone, PartialEq, Eq)]
pub enum Action {
    /// Remove the directory and all its contents, if it exists.
    ClearDir { path: String },
    /// Create the directory.
    MakeDir { path: String },
    /// Copy the whole directory tree at `src` into `dst`, verbatim.
    CopyDir { src: String, dst: String },
    /// Write `contents` to the file at `path`, replacing it.
    WriteFile { path: String, contents: String },
}

/// The path an action creates, copies into or writes; a cleared path
/// counts too.
pub open spec fn action_target(a: Action) -> Seq<char> {
    match a {
        Action::ClearDir { path } => path@,
        Action::MakeDir { path } => path@,
        Action::CopyDir { src: _, dst } => dst@,
        Action::WriteFile { path, contents: _ } => path@,
    }
}

/// The staging directory: the well-known name `temp`, directly under the
/// root project's directory.
pub open spec fn staging_of(root: Seq<char>) -> Seq<char> {
    root + "/temp"@
}

/// Where the package staged under `name` lives.
pub open spec fn staged_dir_of(root: Seq<char>, name: Seq<char>) -> Seq<char> {
    staging_of(root) + "/"@ + name
}

/// The manifest file of a directory.
pub open spec fn manifest_file_of(dir: Seq<char>) -> Seq<char> {
    dir + "/Cargo.toml"@
}

/// The text `out` is the text `src` with its dependency table rewritten
/// and everything else intact, as far as the document model records it.
pub open spec fn rewritten_text_of(out: Seq<char>, src: Seq<char>) -> bool {
    &&& toml_doc_model(src) is Some
    &&& toml_doc_model(out) is Some
    &&& (toml_doc_model(out)->0).0 == rewrite_deps((toml_doc_model(src)->0).0)
    &&& (toml_doc_model(out)->0).1 == (toml_doc_model(src)->0).1
    &&& (toml_doc_model(out)->0).2 == (toml_doc_model(src)->0).2
}

/// Whether a staging plan can be built at all: the snapshot holds the
/// root directory and every staged entry's original directory, and each
/// of those manifests' texts parses.
pub open spec fn plan_feasible(tree: FsTree, root: Seq<char>, staged: Staged) -> bool {
    &&& tree_dir_at(tree.dirs@, root) is Some
    &&& toml_doc_model((tree_dir_at(tree.dirs@, root)->0).text@) is Some
    &&& forall|k: int|
        0 <= k < staged.entries@.len() ==> tree_dir_at(
            tree.dirs@,
            (#[trigger] staged.entries@[k]).orig_dir@,
        ) is Some && toml_doc_model(
            (tree_dir_at(tree.dirs@, staged.entries@[k].orig_dir@)->0).text@,
        ) is Some
}

/// The shape of a correct staging plan for `staged` over the snapshot:
/// clear and recreate the staging directory; write the rewritten root
/// manifest; then, for each staged package in order, copy its original
/// directory to its staged location and write its rewritten manifest.
pub open spec fn plan_ok(tree: FsTree, root: Seq<char>, staged: Staged, plan: Seq<Action>) -> bool {
    &&& plan.len() == 3 + 2 * staged.entries@.len()
    &&& (plan[0] matches Action::ClearDir { path } && path@ == staging_of(root))
    &&& (plan[1] matches Action::MakeDir { path } && path@ == staging_of(root))
    &&& (plan[2] matches Action::WriteFile { path, contents } && path@ == manifest_file_of(
        staging_of(root),
    ) && tree_dir_at(tree.dirs@, root) is Some && rewritten_text_of(
        contents@,
        (tree_dir_at(tree.dirs@, root)->0).text@,
    ))
    &&& forall|k: int|
        0 <= k < staged.entries@.len() ==> (#[trigger] plan[3 + 2 * k] matches Action::CopyDir {
            src,
            dst,
        } && src@ == staged.entries@[k].orig_dir@ && dst@ == staged_dir_of(
            root,
            staged.entries@[k].name@,
        ))
    &&& forall|k: int|
        0 <= k < staged.entries@.len() ==> (#[trigger] plan[4 + 2 * k] matches Action::WriteFile {
            path,
            contents,
        } && path@ == manifest_file_of(staged_dir_of(root, staged.entries@[k].name@))
            && tree_dir_at(tree.dirs@, staged.entries@[k].orig_dir@) is Some && rewritten_text_of(
            contents@,
            (tree_dir_at(tree.dirs@, staged.entries@[k].orig_dir@)->0).text@,
        ))
}

/// Non-mutation of the source: every target of a correct plan lies inside
/// the staging directory, so the original source tree is never created
/// in, copied into or written — only read.
pub proof fn lemma_plan_targets_staged(
    tree: FsTree,
    root: Seq<char>,
    staged: Staged,
    plan: Seq<Action>,
)
    requires
        plan_ok(tree, root, staged, plan),
    ensures
        forall|k: int|
            0 <= k < plan.len() ==> staging_of(root).is_prefix_of(
                action_target(#[trigger] plan[k]),
            ),
{
    assert forall|k: int| 0 <= k < plan.len() implies staging_of(root).is_prefix_of(
        action_target(#[trigger] plan[k]),
    ) by {
        let s = staging_of(root);
        if k <= 2 {
            assert(s.is_prefix_of(s)) by {
                assert(s.subrange(0, s.len() as int) =~= s);
            }
            assert(s.is_prefix_of(manifest_file_of(s))) by {
                assert(manifest_file_of(s).subrange(0, s.len() as int) =~= s);
            }
        } else {
            let e = (k - 3) / 2;
            if (k - 3) % 2 == 0 {
                assert(k == 3 + 2 * e);
                assert(plan[3 + 2 * e] matches Action::CopyDir { src, dst }
                    && dst@ == staged_dir_of(root, staged.entries@[e].name@));
                assert(s.is_prefix_of(staged_dir_of(root, staged.entries@[e].name@))) by {
                    assert(staged_dir_of(root, staged.entries@[e].name@).subrange(
                        0,
                        s.len() as int,
                    ) =~= s);
                }
            } else {
                assert(k == 4 + 2 * e);
                assert(plan[4 + 2 * e] matches Action::WriteFile { path, contents }
                    && path@ == manifest_file_of(staged_dir_of(root, staged.entries@[e].name@)));
                assert(s.is_prefix_of(
                    manifest_file_of(staged_dir_of(root, staged.entries@[e].name@)),
                )) by {
                    assert(manifest_file_of(staged_dir_of(root, staged.entries@[e].name@))
                        .subrange(0, s.len() as int) =~= s);
                }
            }
        }
    }
}

/// The staging directory's path, as text.
pub fn staging_dir(root_dir: &String) -> (r: String)
    ensures
        r@ == staging_of(root_dir@),
{
    let mut r = root_dir.clone();
    r.append("/temp");
    r
}

/// Append `/Cargo.toml` to a directory's path.
fn manifest_file(dir: &String) -> (r: String)
    ensures
        r@ == manifest_file_of(dir@),
{
    let mut r = dir.clone();
    r.append("/Cargo.toml");
    r
}

/// The staged location of the package staged under `name`.
fn staged_dir(root_dir: &String, name: &String) -> (r: String)
    ensures
        r@ == staged_dir_of(root_dir@, name@),
{
    let mut r = staging_dir(root_dir);
    r.append("/");
    r.append(name.as_str());
    r
}

/// Build the staging plan for a vendoring result.  Fails only when a
/// directory that `staged` names is missing from the snapshot, or a
/// snapshot manifest's text does not parse — neither happens to a result
/// of the engine over the same snapshot.
#[verifier::loop_isolation(false)]
pub fn build_plan(tree: &FsTree, root_dir: &String, staged: &Staged) -> (r: Result<
    Vec<Action>,
    VendorError,
>)
    ensures
        r is Ok <==> plan_feasible(*tree, root_dir@, *staged),
        match r {
            Ok(plan) => plan_ok(*tree, root_dir@, *staged, plan@),
            Err(e) => !(e is Filesystem),
        },
{
    let mut plan: Vec<Action> = Vec::new();
    plan.push(Action::ClearDir { path: staging_dir(root_dir) });
    plan.push(Action::MakeDir { path: staging_dir(root_dir) });
    let root_entry = match crate::vendor::tree_find(tree, root_dir) {
        None => {
            return Err(VendorError::ManifestRead { path: root_dir.clone() });
        },
        Some(d) => d,
    };
    let root_text = match rewrite_manifest_text(&root_entry.text, root_dir) {
        Err(e) => {
            return Err(e);
        },
        Ok(t) => t,
    };
    plan.push(Action::WriteFile { path: manifest_file(&staging_dir(root_dir)), contents: root_text });
    let mut k: usize = 0;
    while k < staged.entries.len()
        invariant
            k <= staged.entries@.len(),
            plan@.len() == 3 + 2 * k,
            (plan@[0] matches Action::ClearDir { path } && path@ == staging_of(root_dir@)),
            (plan@[1] matches Action::MakeDir { path } && path@ == staging_of(root_dir@)),
            (plan@[2] matches Action::WriteFile { path, contents } && path@ == manifest_file_of(
                staging_of(root_dir@),
            ) && tree_dir_at(tree.dirs@, root_dir@) is Some && rewritten_text_of(
                contents@,
                (tree_dir_at(tree.dirs@, root_dir@)->0).text@,
            )),
            forall|i: int|
                0 <= i < k ==> (#[trigger] plan@[3 + 2 * i] matches Action::CopyDir { src, dst }
                    && src@ == staged.entries@[i].orig_dir@ && dst@ == staged_dir_of(
                    root_dir@,
                    staged.entries@[i].name@,
                )),
            forall|i: int|
                0 <= i < k ==> (#[trigger] plan@[4 + 2 * i] matches Action::WriteFile {
                    path,
                    contents,
                } && path@ == manifest_file_of(staged_dir_of(root_dir@, staged.entries@[i].name@))
                    && tree_dir_at(tree.dirs@, staged.entries@[i].orig_dir@) is Some
                    && rewritten_text_of(
                    contents@,
                    (tree_dir_at(tree.dirs@, staged.entries@[i].orig_dir@)->0).text@,
                )),
        decreases staged.entries@.len() - k,
    {
        let e = &staged.entries[k];
        let orig = match crate::vendor::tree_find(tree, &e.orig_dir) {
            None => {
                return Err(VendorError::ManifestRead { path: e.orig_dir.clone() });
            },
            Some(d) => d,
        };
        let text = match rewrite_manifest_text(&orig.text, &e.orig_dir) {
            Err(err) => {
                return Err(err);
            },
            Ok(t) => t,
        };
        plan.push(Action::CopyDir { src: e.orig_dir.clone(), dst: staged_dir(root_dir, &e.name) });
        plan.push(
            Action::WriteFile {
                path: manifest_file(&staged_dir(root_dir, &e.name)),
                contents: text,
            },
        );
        k = k + 1;
    }
    proof {
        assert forall|i: int| 0 <= i < staged.entries@.len() implies tree_dir_at(
            tree.dirs@,
            (#[trigger] staged.entries@[i]).orig_dir@,
        ) is Some && toml_doc_model(
            (tree_dir_at(tree.dirs@, staged.entries@[i].orig_dir@)->0).text@,
        ) is Some by {
            assert(plan@[4 + 2 * i] matches Action::WriteFile { path, contents }
                && tree_dir_at(tree.dirs@, staged.entries@[i].orig_dir@) is Some
                && rewritten_text_of(
                contents@,
                (tree_dir_at(tree.dirs@, staged.entries@[i].orig_dir@)->0).text@,
            ));
        }
    }
    Ok(plan)
}

} // verus!
