//! The vendoring engine.
//!
//! Given a snapshot of the reachable source tree — each directory with the
//! model of its manifest — the engine runs a depth-first traversal: walk
//! the dependency entries of the manifest on top of the work stack;
//! resolve each local path against the directory of the manifest that
//! declares it; the first time a resolved directory is seen,
//! record it in the processed set and schedule its own manifest; and stage
//! every discovered package once, under its dependency name, with its
//! manifest rewritten to point at staged siblings.
//!
//! The whole run is defined by the small-step spec function [`spec_run`],
//! so the executable engine is deterministic: two runs over the same tree
//! return the same staged model.

use vstd::prelude::*;

use crate::manifest::DepEntryModel;
use crate::manifest::Manifest;
use crate::manifest::entry_is_local;
use crate::manifest::entry_path;
use crate::manifest::man_model;
use crate::manifest::rewrite_deps;
use crate::paths::spec_resolve;

verus! {

/// One directory of the source tree: its resolved path, the model of its
/// manifest, and the manifest's raw text (kept for the staging plan, which
/// rewrites the text with formatting preserved).
#[derive(Debug, Clone, PartialEq, Eq)]
pub struct FsDir {
    pub path: String,
    pub manifest: Manifest,
    pub text: String,
}

/// The snapshot of every reachable directory that holds a readable,
/// parseable manifest.
#[derive(Debug, Clone, PartialEq, Eq)]
pub struct FsTree {
    pub dirs: Vec<FsDir>,
}

/// Why a vendoring run aborted.  Any failure aborts the whole run; the
/// staging area may be left incomplete and is rebuilt by the next run.
#[derive(Debug, Clone, PartialEq, Eq)]
pub enum VendorError {
    /// A manifest that the traversal needs cannot be read: the resolved
    /// directory is not part of the snapshot.
    ManifestRead { path: String },
    /// A manifest's text is not valid structured-document syntax.
    ManifestParse { path: String },
    /// A directory could not be created, copied or written.
    Filesystem { path: String },
}

/// One staged package: the dependency name it is staged under, the
/// resolved original directory it was copied from, and its rewritten
/// manifest model.
#[derive(Debug, Clone, PartialEq, Eq)]
pub struct StagedEntry {
    pub name: String,
    pub orig_dir: String,
    pub manifest: Manifest,
}

/// The model of the staging area: the rewritten root manifest, and the
/// staged packages in discovery order.
#[derive(Debug, Clone, PartialEq, Eq)]
pub struct Staged {
    pub root_manifest: Manifest,
    pub entries: Vec<StagedEntry>,
}

/// The first directory of `dirs` with path `dir`, if any.
pub open spec fn tree_dir_at(dirs: Seq<FsDir>, dir: Seq<char>) -> Option<FsDir>
    decreases dirs.len(),
{
    if dirs.len() == 0 {
        None
    } else if dirs[0].path@ == dir {
        Some(dirs[0])
    } else {
        tree_dir_at(dirs.subrange(1, dirs.len() as int), dir)
    }
}

/// The dependency-table model of the directory `dir`, if the snapshot
/// holds it.
pub open spec fn tree_at(dirs: Seq<FsDir>, dir: Seq<char>) -> Option<Seq<DepEntryModel>> {
    match tree_dir_at(dirs, dir) {
        None => None,
        Some(d) => Some(man_model(d.manifest)),
    }
}

/// The paths of the snapshot's directories.
pub open spec fn tree_keys(dirs: Seq<FsDir>) -> Seq<Seq<char>> {
    dirs.map_values(|d: FsDir| d.path@)
}

/// A directory that lookup finds is one of the snapshot's paths.
pub proof fn lemma_tree_at_contains(dirs: Seq<FsDir>, dir: Seq<char>)
    requires
        tree_dir_at(dirs, dir) is Some,
    ensures
        tree_keys(dirs).contains(dir),
    decreases dirs.len(),
{
    if dirs.len() == 0 {
    } else if dirs[0].path@ == dir {
        assert(tree_keys(dirs)[0] == dir);
    } else {
        let tail = dirs.subrange(1, dirs.len() as int);
        lemma_tree_at_contains(tail, dir);
        let j = choose|j: int| 0 <= j < tail.len() && tree_keys(tail)[j] == dir;
        assert(tree_keys(dirs)[j + 1] == dir);
    }
}

/// A set of processed paths that the traversal can still extend: no
/// duplicates, and every member names a directory of the snapshot.
pub open spec fn run_inv(dirs: Seq<FsDir>, processed: Seq<Seq<char>>) -> bool {
    processed.no_duplicates() && forall|i: int|
        0 <= i < processed.len() ==> tree_at(dirs, #[trigger] processed[i]) is Some
}

/// Under [`run_inv`] the processed set cannot outgrow the snapshot: its
/// members are distinct directory paths of the snapshot.
pub proof fn lemma_processed_bound(dirs: Seq<FsDir>, processed: Seq<Seq<char>>)
    requires
        run_inv(dirs, processed),
    ensures
        processed.len() <= dirs.len(),
{
    broadcast use vstd::seq_lib::group_seq_properties;

    let keys = tree_keys(dirs);
    assert forall|i: int| 0 <= i < processed.len() implies keys.contains(
        #[trigger] processed[i],
    ) by {
        lemma_tree_at_contains(dirs, processed[i]);
    }
    processed.unique_seq_to_set();
    assert(processed.to_set() <= keys.to_set());
    keys.lemma_cardinality_of_set();
    vstd::set_lib::lemma_len_subset(processed.to_set(), keys.to_set());
}

/// How many dependency entries the frame `f` has still to walk.
pub open spec fn frame_rem(dirs: Seq<FsDir>, f: (Seq<char>, int)) -> int {
    match tree_at(dirs, f.0) {
        None => 0,
        Some(deps) => if 0 <= f.1 && f.1 <= deps.len() {
            deps.len() - f.1
        } else {
            0
        },
    }
}

/// The total number of dependency entries still to walk on the stack.
pub open spec fn stack_rem(dirs: Seq<FsDir>, stack: Seq<(Seq<char>, int)>) -> int
    decreases stack.len(),
{
    if stack.len() == 0 {
        0
    } else {
        frame_rem(dirs, stack.last()) + stack_rem(dirs, stack.drop_last())
    }
}

pub proof fn lemma_stack_rem_nonneg(dirs: Seq<FsDir>, stack: Seq<(Seq<char>, int)>)
    ensures
        stack_rem(dirs, stack) >= 0,
    decreases stack.len(),
{
    if stack.len() > 0 {
        lemma_stack_rem_nonneg(dirs, stack.drop_last());
    }
}

/// Replacing the top frame by one with the next dependency index lowers
/// the entries still to walk by exactly one.
pub proof fn lemma_stack_rem_advance(
    dirs: Seq<FsDir>,
    stack: Seq<(Seq<char>, int)>,
    deps: Seq<DepEntryModel>,
)
    requires
        stack.len() > 0,
        tree_at(dirs, stack.last().0) == Some(deps),
        0 <= stack.last().1 < deps.len(),
    ensures
        stack_rem(dirs, stack.drop_last().push((stack.last().0, stack.last().1 + 1))) ==
            stack_rem(dirs, stack) - 1,
{
    let f = stack.last();
    let advanced = stack.drop_last().push((f.0, f.1 + 1));
    assert(advanced.last() == (f.0, f.1 + 1));
    assert(advanced.drop_last() =~= stack.drop_last());
}

/// The whole traversal, defined one small step at a time from any state:
/// the stack of `(directory, next dependency index)` frames, the
/// processed set, and the `(name, original directory)` entries staged so
/// far.  The top frame is walked one dependency entry at a time; a local
/// entry whose resolved directory is missing aborts the run with that
/// path, a fresh one is staged and scheduled, and anything else is
/// skipped.  The outcome is the staged entries in discovery order.
pub open spec fn spec_run(
    dirs: Seq<FsDir>,
    stack: Seq<(Seq<char>, int)>,
    processed: Seq<Seq<char>>,
    entries: Seq<(Seq<char>, Seq<char>)>,
) -> Result<Seq<(Seq<char>, Seq<char>)>, Seq<char>>
    decreases dirs.len() - processed.len(), stack_rem(dirs, stack), stack.len(),
        when run_inv(dirs, processed)
{
    if stack.len() == 0 {
        Ok(entries)
    } else {
        let f = stack.last();
        match tree_at(dirs, f.0) {
            None => Err(f.0),
            Some(deps) => {
                if f.1 < 0 || f.1 >= deps.len() {
                    proof {
                        lemma_processed_bound(dirs, processed);
                        lemma_stack_rem_nonneg(dirs, stack.drop_last());
                    }
                    spec_run(dirs, stack.drop_last(), processed, entries)
                } else {
                    let e = deps[f.1];
                    let advanced = stack.drop_last().push((f.0, f.1 + 1));
                    if !entry_is_local(e) {
                        proof {
                            lemma_processed_bound(dirs, processed);
                            lemma_stack_rem_advance(dirs, stack, deps);
                            lemma_stack_rem_nonneg(dirs, advanced);
                        }
                        spec_run(dirs, advanced, processed, entries)
                    } else {
                        let r = spec_resolve(f.0, entry_path(e));
                        if tree_at(dirs, r) is None {
                            Err(r)
                        } else if processed.contains(r) {
                            proof {
                                lemma_processed_bound(dirs, processed);
                                lemma_stack_rem_advance(dirs, stack, deps);
                                lemma_stack_rem_nonneg(dirs, advanced);
                            }
                            spec_run(dirs, advanced, processed, entries)
                        } else {
                            proof {
                                assert(run_inv(dirs, processed.push(r))) by {
                                    assert(forall|i: int|
                                        0 <= i < processed.len() ==> processed.push(r)[i]
                                            == processed[i]);
                                    assert(processed.push(r)[processed.len() as int] == r);
                                }
                                lemma_processed_bound(dirs, processed.push(r));
                                lemma_stack_rem_nonneg(dirs, advanced.push((r, 0)));
                            }
                            spec_run(
                                dirs,
                                advanced.push((r, 0)),
                                processed.push(r),
                                entries.push((e.0, r)),
                            )
                        }
                    }
                }
            }
        }
    }
}

/// The dependency entries of `d` before index `k` are closed: each local
/// one resolves to a member of `pr`.
pub open spec fn closed_upto(
    dirs: Seq<FsDir>,
    pr: Seq<Seq<char>>,
    d: Seq<char>,
    k: int,
) -> bool {
    match tree_at(dirs, d) {
        None => true,
        Some(deps) => forall|j: int|
            0 <= j < k && j < deps.len() && entry_is_local(#[trigger] deps[j]) ==> pr.contains(
                spec_resolve(d, entry_path(deps[j])),
            ),
    }
}

/// Every local dependency of `d` resolves to a member of `pr`.
pub open spec fn dir_closed(dirs: Seq<FsDir>, pr: Seq<Seq<char>>, d: Seq<char>) -> bool {
    match tree_at(dirs, d) {
        None => true,
        Some(deps) => closed_upto(dirs, pr, d, deps.len() as int),
    }
}

/// Whether some frame of `stack` walks the directory `p`.
pub open spec fn on_stack(stack: Seq<(Seq<char>, int)>, p: Seq<char>) -> bool {
    exists|j: int| 0 <= j < stack.len() && (#[trigger] stack[j]).0 == p
}

/// The name and original directory of each staged entry, in order.
pub open spec fn entry_models(s: Seq<StagedEntry>) -> Seq<(Seq<char>, Seq<char>)> {
    s.map_values(|e: StagedEntry| (e.name@, e.orig_dir@))
}

/// The original directories of the staged entries, in order.
pub open spec fn entry_origs(s: Seq<StagedEntry>) -> Seq<Seq<char>> {
    s.map_values(|e: StagedEntry| e.orig_dir@)
}

/// The traversal state a run starts from: the root directory's manifest,
/// first dependency entry, nothing processed, nothing staged.
pub open spec fn init_stack(root: Seq<char>) -> Seq<(Seq<char>, int)> {
    seq![(root, 0int)]
}

/// The staged entry `e` records a real reference: some manifest of the
/// snapshot — the root's or a processed package's — declares a local
/// dependency under `e`'s name whose path resolves to `e`'s original
/// directory.
pub open spec fn entry_sourced(
    dirs: Seq<FsDir>,
    root: Seq<char>,
    pr: Seq<Seq<char>>,
    e: StagedEntry,
) -> bool {
    exists|s: Seq<char>, j: int|
        {
            &&& (s == root || pr.contains(s))
            &&& tree_at(dirs, s) is Some
            &&& 0 <= j < tree_at(dirs, s)->0.len()
            &&& entry_is_local(#[trigger] tree_at(dirs, s)->0[j])
            &&& spec_resolve(s, entry_path(tree_at(dirs, s)->0[j])) == e.orig_dir@
            &&& tree_at(dirs, s)->0[j].0 == e.name@
        }
}

/// The path a [`VendorError`] reports.
pub open spec fn error_path(e: VendorError) -> Seq<char> {
    match e {
        VendorError::ManifestRead { path } => path@,
        VendorError::ManifestParse { path } => path@,
        VendorError::Filesystem { path } => path@,
    }
}

/// Everything a successful vendoring run promises of its staged model.
///
/// - The staged entries are exactly the run that [`spec_run`] defines, so
///   the result is a function of the snapshot and the root alone: two runs
///   over an unchanged tree stage identical models.
/// - No duplication: the entries' original directories are distinct — a
///   package reached along two routes is staged once.
/// - Every staged manifest, the root's included, is the rewriting of the
///   snapshot manifest of its original directory.
/// - Completeness: the root and every staged package have each of their
///   local dependencies resolved to some staged original directory.
pub open spec fn vendor_ok(dirs: Seq<FsDir>, root: Seq<char>, st: Staged) -> bool {
    &&& spec_run(dirs, init_stack(root), Seq::empty(), Seq::empty()) == Ok::<
        Seq<(Seq<char>, Seq<char>)>,
        Seq<char>,
    >(entry_models(st.entries@))
    &&& tree_at(dirs, root) is Some
    &&& man_model(st.root_manifest) == rewrite_deps(tree_at(dirs, root)->0)
    &&& entry_origs(st.entries@).no_duplicates()
    &&& forall|k: int|
        0 <= k < st.entries@.len() ==> tree_at(dirs, (#[trigger] st.entries@[k]).orig_dir@) is Some
    &&& forall|k: int|
        0 <= k < st.entries@.len() ==> man_model((#[trigger] st.entries@[k]).manifest)
            == rewrite_deps(tree_at(dirs, st.entries@[k].orig_dir@)->0)
    &&& dir_closed(dirs, entry_origs(st.entries@), root)
    &&& forall|k: int|
        0 <= k < st.entries@.len() ==> dir_closed(
            dirs,
            entry_origs(st.entries@),
            (#[trigger] st.entries@[k]).orig_dir@,
        )
    &&& forall|k: int|
        0 <= k < st.entries@.len() ==> entry_sourced(
            dirs,
            root,
            entry_origs(st.entries@),
            #[trigger] st.entries@[k],
        )
}

/// Find the directory with path `dir` in the snapshot.
pub(crate) fn tree_find<'a>(tree: &'a FsTree, dir: &String) -> (r: Option<&'a FsDir>)
    ensures
        match r {
            Some(d) => tree_dir_at(tree.dirs@, dir@) == Some(*d),
            None => tree_dir_at(tree.dirs@, dir@) is None,
        },
{
    let n: usize = tree.dirs.len();
    let mut i: usize = 0;
    proof {
        assert(tree.dirs@.subrange(0, n as int) =~= tree.dirs@);
    }
    while i < n
        invariant
            i <= n,
            n == tree.dirs@.len(),
            tree_dir_at(tree.dirs@, dir@) == tree_dir_at(
                tree.dirs@.subrange(i as int, n as int),
                dir@,
            ),
        decreases n - i,
    {
        let d = &tree.dirs[i];
        let ghost sub = tree.dirs@.subrange(i as int, n as int);
        proof {
            assert(sub[0] == tree.dirs@[i as int]);
        }
        if d.path == *dir {
            return Some(d);
        }
        proof {
            assert(sub.subrange(1, sub.len() as int) =~= tree.dirs@.subrange(
                i + 1,
                n as int,
            ));
        }
        i = i + 1;
    }
    proof {
        assert(tree.dirs@.subrange(n as int, n as int).len() == 0);
    }
    None
}

/// Whether `x` is one of the strings of `v`.
fn contains_string(v: &Vec<String>, x: &String) -> (r: bool)
    ensures
        r == v.deep_view().contains(x@),
{
    let mut i: usize = 0;
    while i < v.len()
        invariant
            i <= v.len(),
            forall|k: int| 0 <= k < i ==> v.deep_view()[k] != x@,
        decreases v.len() - i,
    {
        let vi = &v[i];
        proof {
            assert(v.deep_view()[i as int] == v@[i as int]@);
        }
        if *vi == *x {
            return true;
        }
        i = i + 1;
    }
    false
}

/// The frames of the executable work stack, as the spec sees them.
pub open spec fn stack_model(s: Seq<(String, usize)>) -> Seq<(Seq<char>, int)> {
    s.map_values(|f: (String, usize)| (f.0@, f.1 as int))
}

/// The script that vendors local dependencies.
#[derive(Debug)]
pub struct LocalDependencies;

impl LocalDependencies {
    /// Run the vendoring traversal over a snapshot of the source tree.
    ///
    /// On success the staged model satisfies [`vendor_ok`]; on failure the
    /// reported path is exactly the resolved directory at which
    /// [`spec_run`] aborts, and nothing is staged.
    #[verifier::loop_isolation(false)]
    pub fn vendor(tree: &FsTree, root_dir: &String) -> (r: Result<Staged, VendorError>)
        ensures
            match r {
                Ok(st) => vendor_ok(tree.dirs@, root_dir@, st),
                Err(e) => e is ManifestRead && spec_run(
                    tree.dirs@,
                    init_stack(root_dir@),
                    Seq::empty(),
                    Seq::empty(),
                ) == Err::<Seq<(Seq<char>, Seq<char>)>, Seq<char>>(error_path(e)),
            },
    {
        broadcast use vstd::seq_lib::group_seq_properties;

        let ghost dirs = tree.dirs@;
        let root_found = tree_find(tree, root_dir);
        let root_manifest = match root_found {
            None => {
                proof {
                    assert(run_inv(dirs, Seq::empty()));
                    assert(init_stack(root_dir@).last() == (root_dir@, 0int));
                    assert(spec_run(dirs, init_stack(root_dir@), Seq::empty(), Seq::empty())
                        == Err::<Seq<(Seq<char>, Seq<char>)>, Seq<char>>(root_dir@));
                }
                return Err(VendorError::ManifestRead { path: root_dir.clone() });
            },
            Some(d) => {
                let rm = crate::manifest::rewrite_manifest(&d.manifest);
                proof {
                    assert(tree_at(dirs, root_dir@) == Some(man_model(d.manifest)));
                    assert(man_model(rm) == rewrite_deps(tree_at(dirs, root_dir@)->0));
                }
                rm
            },
        };
        let mut stack: Vec<(String, usize)> = Vec::new();
        stack.push((root_dir.clone(), 0));
        let mut processed: Vec<String> = Vec::new();
        let mut entries: Vec<StagedEntry> = Vec::new();
        proof {
            assert(stack_model(stack@) =~= init_stack(root_dir@));
            assert(processed.deep_view() =~= Seq::<Seq<char>>::empty());
            assert(entry_models(entries@) =~= Seq::<(Seq<char>, Seq<char>)>::empty());
            assert(run_inv(dirs, Seq::empty()));
        }
        while stack.len() > 0
            invariant
                run_inv(dirs, processed.deep_view()),
                spec_run(dirs, stack_model(stack@), processed.deep_view(), entry_models(entries@))
                    == spec_run(dirs, init_stack(root_dir@), Seq::empty(), Seq::empty()),
                entries@.len() == processed@.len(),
                forall|k: int|
                    0 <= k < entries@.len() ==> (#[trigger] entries@[k]).orig_dir@
                        == processed.deep_view()[k],
                forall|k: int|
                    0 <= k < entries@.len() ==> tree_at(
                        dirs,
                        (#[trigger] entries@[k]).orig_dir@,
                    ) is Some,
                forall|k: int|
                    0 <= k < entries@.len() ==> man_model((#[trigger] entries@[k]).manifest)
                        == rewrite_deps(tree_at(dirs, entries@[k].orig_dir@)->0),
                forall|j: int|
                    0 <= j < stack@.len() ==> (#[trigger] stack_model(stack@)[j]).1 >= 0
                        && closed_upto(
                        dirs,
                        processed.deep_view(),
                        stack_model(stack@)[j].0,
                        stack_model(stack@)[j].1,
                    ),
                forall|i: int|
                    0 <= i < processed.deep_view().len() ==> on_stack(
                        stack_model(stack@),
                        #[trigger] processed.deep_view()[i],
                    ) || dir_closed(dirs, processed.deep_view(), processed.deep_view()[i]),
                on_stack(stack_model(stack@), root_dir@) || dir_closed(
                    dirs,
                    processed.deep_view(),
                    root_dir@,
                ),
                forall|j: int|
                    0 <= j < stack@.len() ==> (#[trigger] stack_model(stack@)[j]).0 == root_dir@
                        || processed.deep_view().contains(stack_model(stack@)[j].0),
                forall|k: int|
                    0 <= k < entries@.len() ==> entry_sourced(
                        dirs,
                        root_dir@,
                        processed.deep_view(),
                        #[trigger] entries@[k],
                    ),
            decreases dirs.len() - processed@.len(), stack_rem(dirs, stack_model(stack@)),
                stack@.len(),
        {
            let ghost st0 = stack_model(stack@);
            let ghost pr0 = processed.deep_view();
            let ghost en0 = entry_models(entries@);
            proof {
                lemma_processed_bound(dirs, pr0);
                lemma_stack_rem_nonneg(dirs, st0);
            }
            let top_i: usize = stack.len() - 1;
            let dir: String = stack[top_i].0.clone();
            let idx: usize = stack[top_i].1;
            let ghost f = st0.last();
            proof {
                assert(f == (dir@, idx as int));
            }
            let found = tree_find(tree, &dir);
            match found {
                None => {
                    proof {
                        assert(tree_at(dirs, f.0) is None);
                        assert(spec_run(dirs, st0, pr0, en0) == Err::<
                            Seq<(Seq<char>, Seq<char>)>,
                            Seq<char>,
                        >(f.0));
                    }
                    return Err(VendorError::ManifestRead { path: dir });
                },
                Some(fsdir) => {
                    let ghost deps = man_model(fsdir.manifest);
                    proof {
                        assert(tree_dir_at(dirs, dir@) == Some(*fsdir));
                        assert(tree_at(dirs, f.0) == Some(deps));
                    }
                    if idx >= fsdir.manifest.deps.len() {
                        stack.pop();
                        proof {
                            assert(stack_model(stack@) =~= st0.drop_last());
                            lemma_pop_preserves(dirs, st0, pr0, root_dir@, f, deps);
                            assert(stack_rem(dirs, st0) == frame_rem(dirs, f) + stack_rem(
                                dirs,
                                st0.drop_last(),
                            ));
                            lemma_stack_rem_nonneg(dirs, st0.drop_last());
                            assert(f.1 >= deps.len());
                            assert(spec_run(dirs, st0, pr0, en0) == spec_run(
                                dirs,
                                st0.drop_last(),
                                pr0,
                                en0,
                            ));
                        }
                    } else {
                        let dep = &fsdir.manifest.deps[idx];
                        proof {
                            assert(fsdir.manifest.deps@[idx as int] == *dep);
                            assert(deps[idx as int] == crate::manifest::dep_model(
                                fsdir.manifest.deps@[idx as int],
                            ));
                        }
                        let ghost e = deps[idx as int];
                        stack.pop();
                        stack.push((dir.clone(), idx + 1));
                        let ghost adv = stack_model(stack@);
                        proof {
                            assert(adv =~= st0.drop_last().push((f.0, f.1 + 1)));
                            lemma_advance_preserves_frames(dirs, st0, pr0, f, deps);
                            lemma_stack_rem_advance(dirs, st0, deps);
                            lemma_stack_rem_nonneg(dirs, adv);
                            assert forall|j: int| 0 <= j < adv.len() implies (#[trigger] adv[j]).0
                                == root_dir@ || pr0.contains(adv[j].0) by {
                                if j < st0.len() - 1 {
                                    assert(adv[j] == st0[j]);
                                } else {
                                    assert(adv[j].0 == f.0);
                                    assert(st0.last().0 == f.0);
                                }
                            }
                            assert(forall|p: Seq<char>|
                                on_stack(st0, p) ==> on_stack(adv, p)) by {
                                assert forall|p: Seq<char>| on_stack(st0, p) implies on_stack(
                                    adv,
                                    p,
                                ) by {
                                    let j = choose|j: int|
                                        0 <= j < st0.len() && (#[trigger] st0[j]).0 == p;
                                    assert(adv[j].0 == p);
                                }
                            }
                        }
                        match dep.source.local_path() {
                            None => {
                                proof {
                                    assert(!entry_is_local(e));
                                    lemma_closed_upto_extend_nonlocal(dirs, pr0, f.0, f.1, deps);
                                    assert(spec_run(dirs, st0, pr0, en0) == spec_run(
                                        dirs,
                                        adv,
                                        pr0,
                                        en0,
                                    ));
                                }
                            },
                            Some(p) => {
                                proof {
                                    assert(entry_is_local(e));
                                    assert(entry_path(e) == p@);
                                }
                                let rp = crate::paths::resolve_path(dir.as_str(), p.as_str());
                                proof {
                                    assert(rp@ == spec_resolve(f.0, entry_path(e)));
                                }
                                let dep_found = tree_find(tree, &rp);
                                match dep_found {
                                    None => {
                                        proof {
                                            assert(tree_at(dirs, rp@) is None);
                                            assert(spec_run(dirs, st0, pr0, en0) == Err::<
                                                Seq<(Seq<char>, Seq<char>)>,
                                                Seq<char>,
                                            >(rp@));
                                        }
                                        return Err(VendorError::ManifestRead { path: rp });
                                    },
                                    Some(depdir) => {
                                        if !contains_string(&processed, &rp) {
                                            let staged_manifest = crate::manifest::rewrite_manifest(
                                                &depdir.manifest,
                                            );
                                            let ghost evec0 = entries@;
                                            processed.push(rp.clone());
                                            entries.push(
                                                StagedEntry {
                                                    name: dep.name.clone(),
                                                    orig_dir: rp.clone(),
                                                    manifest: staged_manifest,
                                                },
                                            );
                                            stack.push((rp, 0));
                                            proof {
                                                let r = spec_resolve(f.0, entry_path(e));
                                                assert(processed.deep_view() =~= pr0.push(r));
                                                assert(e.0 == dep.name@);
                                                assert(entry_models(entries@) =~= en0.push(
                                                    (e.0, r),
                                                ));
                                                assert(stack_model(stack@) =~= adv.push(
                                                    (r, 0int),
                                                ));
                                                lemma_fresh_dep_preserves(dirs, adv, pr0, r);
                                                lemma_no_dup_push(pr0, r);
                                                assert(run_inv(dirs, pr0.push(r)));
                                                lemma_closed_upto_extend_local(
                                                    dirs,
                                                    pr0.push(r),
                                                    f.0,
                                                    f.1,
                                                    deps,
                                                );
                                                assert(tree_at(dirs, rp@) == Some(man_model(
                                                    depdir.manifest,
                                                )));
                                                assert(man_model(staged_manifest)
                                                    == rewrite_deps(tree_at(dirs, rp@)->0));
                                                assert(!pr0.contains(r));
                                                assert(spec_run(dirs, st0, pr0, en0) == spec_run(
                                                    dirs,
                                                    adv.push((r, 0int)),
                                                    pr0.push(r),
                                                    en0.push((e.0, r)),
                                                ));
                                                lemma_processed_bound(dirs, pr0.push(r));
                                                lemma_stack_rem_nonneg(
                                                    dirs,
                                                    stack_model(stack@),
                                                );
                                                let prn = pr0.push(r);
                                                assert(entry_sourced(
                                                    dirs,
                                                    root_dir@,
                                                    prn,
                                                    entries@[en0.len() as int],
                                                )) by {
                                                    assert(st0.last().0 == f.0);
                                                    assert(f.0 == root_dir@ || pr0.contains(f.0));
                                                    assert(f.0 == root_dir@ || prn.contains(f.0));
                                                    assert({
                                                        &&& tree_at(dirs, f.0) is Some
                                                        &&& 0 <= idx as int
                                                        &&& (idx as int) < tree_at(
                                                            dirs,
                                                            f.0,
                                                        )->0.len()
                                                        &&& entry_is_local(
                                                            tree_at(dirs, f.0)->0[idx as int],
                                                        )
                                                        &&& spec_resolve(
                                                            f.0,
                                                            entry_path(
                                                                tree_at(dirs, f.0)->0[idx as int],
                                                            ),
                                                        ) == entries@[en0.len() as int].orig_dir@
                                                        &&& tree_at(dirs, f.0)->0[idx as int].0
                                                            == entries@[en0.len() as int].name@
                                                    });
                                                }
                                                assert forall|k: int|
                                                    0 <= k < en0.len() implies entry_sourced(
                                                    dirs,
                                                    root_dir@,
                                                    prn,
                                                    #[trigger] entries@[k],
                                                ) by {
                                                    assert(entries@[k] == evec0[k]);
                                                    assert(entry_sourced(
                                                        dirs,
                                                        root_dir@,
                                                        pr0,
                                                        entries@[k],
                                                    ));
                                                    let (s, j) = choose|s: Seq<char>, j: int|
                                                        {
                                                            &&& (s == root_dir@ || pr0.contains(
                                                                s,
                                                            ))
                                                            &&& tree_at(dirs, s) is Some
                                                            &&& 0 <= j < tree_at(
                                                                dirs,
                                                                s,
                                                            )->0.len()
                                                            &&& entry_is_local(
                                                                #[trigger] tree_at(
                                                                    dirs,
                                                                    s,
                                                                )->0[j],
                                                            )
                                                            &&& spec_resolve(
                                                                s,
                                                                entry_path(tree_at(dirs, s)->0[j]),
                                                            ) == entries@[k].orig_dir@
                                                            &&& tree_at(dirs, s)->0[j].0
                                                                == entries@[k].name@
                                                        };
                                                    assert(s == root_dir@ || prn.contains(s));
                                                    assert(entry_is_local(tree_at(dirs, s)->0[j]));
                                                }
                                            }
                                        } else {
                                            proof {
                                                assert(pr0.contains(rp@));
                                                lemma_closed_upto_extend_local(
                                                    dirs,
                                                    pr0,
                                                    f.0,
                                                    f.1,
                                                    deps,
                                                );
                                                assert(spec_run(dirs, st0, pr0, en0) == spec_run(
                                                    dirs,
                                                    adv,
                                                    pr0,
                                                    en0,
                                                ));
                                            }
                                        }
                                    },
                                }
                            },
                        }
                    }
                },
            }
        }
        proof {
            assert(stack_model(stack@).len() == 0);
            assert(spec_run(dirs, stack_model(stack@), processed.deep_view(), entry_models(
                entries@,
            )) == Ok::<Seq<(Seq<char>, Seq<char>)>, Seq<char>>(entry_models(entries@)));
        }
        let st = Staged { root_manifest, entries };
        proof {
            assert(entry_origs(st.entries@) =~= processed.deep_view());
            assert forall|k: int| 0 <= k < st.entries@.len() implies dir_closed(
                dirs,
                entry_origs(st.entries@),
                (#[trigger] st.entries@[k]).orig_dir@,
            ) by {
                assert(processed.deep_view()[k] == st.entries@[k].orig_dir@);
            }
        }
        Ok(st)
    }
}

/// Pushing a fresh element keeps a duplicate-free sequence duplicate-free.
pub proof fn lemma_no_dup_push(pr: Seq<Seq<char>>, r: Seq<char>)
    requires
        pr.no_duplicates(),
        !pr.contains(r),
    ensures
        pr.push(r).no_duplicates(),
{
    let p = pr.push(r);
    assert forall|i: int, j: int| 0 <= i < p.len() && 0 <= j < p.len() && i != j implies p[i]
        != p[j] by {
        if i < pr.len() && j < pr.len() {
        } else if i < pr.len() {
            assert(pr[i] == p[i]);
            if p[i] == r {
                assert(pr.contains(r));
            }
        } else if j < pr.len() {
            assert(pr[j] == p[j]);
            if p[j] == r {
                assert(pr.contains(r));
            }
        }
    }
}

/// Popping an exhausted frame keeps the coverage invariant: the popped
/// directory is fully closed, and every other covered directory is still
/// on the stack or closed.
proof fn lemma_pop_preserves(
    dirs: Seq<FsDir>,
    st0: Seq<(Seq<char>, int)>,
    pr: Seq<Seq<char>>,
    root: Seq<char>,
    f: (Seq<char>, int),
    deps: Seq<DepEntryModel>,
)
    requires
        st0.len() > 0,
        f == st0.last(),
        tree_at(dirs, f.0) == Some(deps),
        f.1 >= deps.len(),
        closed_upto(dirs, pr, f.0, f.1),
        forall|i: int|
            0 <= i < pr.len() ==> on_stack(st0, #[trigger] pr[i]) || dir_closed(dirs, pr, pr[i]),
        on_stack(st0, root) || dir_closed(dirs, pr, root),
    ensures
        forall|i: int|
            0 <= i < pr.len() ==> on_stack(st0.drop_last(), #[trigger] pr[i]) || dir_closed(
                dirs,
                pr,
                pr[i],
            ),
        on_stack(st0.drop_last(), root) || dir_closed(dirs, pr, root),
        dir_closed(dirs, pr, f.0),
{
    assert(dir_closed(dirs, pr, f.0));
    assert forall|p: Seq<char>| on_stack(st0, p) implies on_stack(st0.drop_last(), p)
        || dir_closed(dirs, pr, p) by {
        let j = choose|j: int| 0 <= j < st0.len() && (#[trigger] st0[j]).0 == p;
        if j < st0.len() - 1 {
            assert(st0.drop_last()[j].0 == p);
        } else {
            assert(p == f.0);
        }
    }
}

/// Advancing the top frame's index keeps every other frame's prefix
/// closure, since only the top frame changed.
proof fn lemma_advance_preserves_frames(
    dirs: Seq<FsDir>,
    st0: Seq<(Seq<char>, int)>,
    pr: Seq<Seq<char>>,
    f: (Seq<char>, int),
    deps: Seq<DepEntryModel>,
)
    requires
        st0.len() > 0,
        f == st0.last(),
        forall|j: int|
            0 <= j < st0.len() ==> (#[trigger] st0[j]).1 >= 0 && closed_upto(
                dirs,
                pr,
                st0[j].0,
                st0[j].1,
            ),
    ensures
        forall|j: int|
            0 <= j < st0.len() - 1 ==> (#[trigger] st0.drop_last().push((f.0, f.1 + 1))[j]).1
                >= 0 && closed_upto(
                dirs,
                pr,
                st0.drop_last().push((f.0, f.1 + 1))[j].0,
                st0.drop_last().push((f.0, f.1 + 1))[j].1,
            ),
{
    let adv = st0.drop_last().push((f.0, f.1 + 1));
    assert forall|j: int| 0 <= j < st0.len() - 1 implies (#[trigger] adv[j]).1 >= 0
        && closed_upto(dirs, pr, adv[j].0, adv[j].1) by {
        assert(adv[j] == st0[j]);
    }
}

/// A non-local entry extends the closed prefix by one for free.
proof fn lemma_closed_upto_extend_nonlocal(
    dirs: Seq<FsDir>,
    pr: Seq<Seq<char>>,
    d: Seq<char>,
    k: int,
    deps: Seq<DepEntryModel>,
)
    requires
        tree_at(dirs, d) == Some(deps),
        0 <= k < deps.len(),
        !entry_is_local(deps[k]),
        closed_upto(dirs, pr, d, k),
    ensures
        closed_upto(dirs, pr, d, k + 1),
{
}

/// A local entry whose resolution is processed extends the closed prefix.
proof fn lemma_closed_upto_extend_local(
    dirs: Seq<FsDir>,
    pr: Seq<Seq<char>>,
    d: Seq<char>,
    k: int,
    deps: Seq<DepEntryModel>,
)
    requires
        tree_at(dirs, d) == Some(deps),
        0 <= k < deps.len(),
        entry_is_local(deps[k]) ==> pr.contains(spec_resolve(d, entry_path(deps[k]))),
        closed_upto(dirs, pr, d, k),
    ensures
        closed_upto(dirs, pr, d, k + 1),
{
}

/// Growing the processed set keeps every closure fact, and pushing the
/// fresh directory's frame keeps every covered directory on the stack or
/// closed.
proof fn lemma_fresh_dep_preserves(
    dirs: Seq<FsDir>,
    adv: Seq<(Seq<char>, int)>,
    pr: Seq<Seq<char>>,
    r: Seq<char>,
)
    ensures
        forall|x: Seq<char>| pr.contains(x) ==> #[trigger] pr.push(r).contains(x),
        pr.push(r).contains(r),
        forall|d: Seq<char>, k: int|
            closed_upto(dirs, pr, d, k) ==> #[trigger] closed_upto(dirs, pr.push(r), d, k),
        forall|d: Seq<char>|
            dir_closed(dirs, pr, d) ==> #[trigger] dir_closed(dirs, pr.push(r), d),
        forall|p: Seq<char>| on_stack(adv, p) ==> #[trigger] on_stack(adv.push((r, 0int)), p),
        on_stack(adv.push((r, 0int)), r),
{
    assert forall|x: Seq<char>| pr.contains(x) implies #[trigger] pr.push(r).contains(x) by {
        let j = choose|j: int| 0 <= j < pr.len() && pr[j] == x;
        assert(pr.push(r)[j] == x);
    }
    assert(pr.push(r)[pr.len() as int] == r);
    assert forall|d: Seq<char>, k: int| closed_upto(dirs, pr, d, k) implies #[trigger] closed_upto(
        dirs,
        pr.push(r),
        d,
        k,
    ) by {
    }
    assert forall|p: Seq<char>| on_stack(adv, p) implies #[trigger] on_stack(
        adv.push((r, 0int)),
        p,
    ) by {
        let j = choose|j: int| 0 <= j < adv.len() && (#[trigger] adv[j]).0 == p;
        assert(adv.push((r, 0int))[j].0 == p);
    }
    assert(adv.push((r, 0int))[adv.len() as int].0 == r);
}

} // verus!
