//! Collecting the source-tree snapshot that the vendoring engine walks.
//!
//! Reading manifest files is the caller's business; deciding which files
//! to read is this module's.  A [`Discovery`] starts at the root
//! directory and asks, one directory at a time, for the text of that
//! directory's manifest; parsing it may reveal further local-path
//! dependencies, which are scheduled exactly once each.  When nothing is
//! pending the snapshot is closed — every local dependency of every
//! collected manifest resolves to a collected directory — and vendoring
//! over it cannot fail.

use vstd::prelude::*;

use crate::manifest::entry_is_local;
use crate::manifest::entry_path;
use crate::manifest::man_model;
use crate::paths::spec_resolve;
use crate::toml_io::parse_manifest;
use crate::toml_io::toml_doc_model;
use crate::vendor::FsDir;
use crate::vendor::FsTree;
use crate::vendor::LocalDependencies;
use crate::vendor::Staged;
use crate::vendor::VendorError;
use crate::vendor::error_path;
use crate::vendor::lemma_no_dup_push;
use crate::vendor::lemma_processed_bound;
use crate::vendor::lemma_stack_rem_advance;
use crate::vendor::lemma_stack_rem_nonneg;
use crate::vendor::run_inv;
use crate::vendor::spec_run;
use crate::vendor::tree_at;
use crate::vendor::tree_dir_at;
use crate::vendor::tree_keys;
use crate::vendor::vendor_ok;

verus! {

/// The incremental collection of the snapshot: the directories whose
/// manifests are still to be read, those ever seen, and the tree built
/// so far.
#[derive(Debug)]
pub struct Discovery {
    pub root: String,
    pub pending: Vec<String>,
    pub visited: Vec<String>,
    pub tree: FsTree,
}

impl Discovery {
    /// The bookkeeping that every step keeps: seen directories are
    /// distinct; whatever is pending or collected was seen; a seen
    /// directory is collected or pending, never both; and each collected
    /// manifest's local dependencies resolve to seen directories.
    pub open spec fn wf(self) -> bool {
        &&& self.visited.deep_view().no_duplicates()
        &&& self.pending.deep_view().no_duplicates()
        &&& self.visited.deep_view().contains(self.root@)
        &&& forall|i: int|
            0 <= i < self.pending.deep_view().len() ==> self.visited.deep_view().contains(
                #[trigger] self.pending.deep_view()[i],
            )
        &&& forall|i: int|
            0 <= i < self.tree.dirs@.len() ==> self.visited.deep_view().contains(
                (#[trigger] self.tree.dirs@[i]).path@,
            )
        &&& tree_keys(self.tree.dirs@).no_duplicates()
        &&& forall|i: int, j: int|
            #![trigger self.tree.dirs@[i], self.pending.deep_view()[j]]
            0 <= i < self.tree.dirs@.len() && 0 <= j < self.pending.deep_view().len()
                ==> self.tree.dirs@[i].path@ != self.pending.deep_view()[j]
        &&& forall|i: int|
            0 <= i < self.visited.deep_view().len() ==> tree_keys(self.tree.dirs@).contains(
                #[trigger] self.visited.deep_view()[i],
            ) || self.pending.deep_view().contains(self.visited.deep_view()[i])
        &&& forall|i: int, j: int|
            0 <= i < self.tree.dirs@.len() && 0 <= j < man_model(
                (#[trigger] self.tree.dirs@[i]).manifest,
            ).len() && entry_is_local(#[trigger] man_model(self.tree.dirs@[i].manifest)[j])
                ==> self.visited.deep_view().contains(
                spec_resolve(
                    self.tree.dirs@[i].path@,
                    entry_path(man_model(self.tree.dirs@[i].manifest)[j]),
                ),
            )
    }

    /// Start a discovery at the root directory: its manifest is the
    /// first one wanted.
    pub fn new(root_dir: &String) -> (r: Discovery)
        ensures
            r.wf(),
            r.root@ == root_dir@,
            r.tree.dirs@.len() == 0,
            r.pending.deep_view() =~= seq![root_dir@],
    {
        let mut pending: Vec<String> = Vec::new();
        pending.push(root_dir.clone());
        let mut visited: Vec<String> = Vec::new();
        visited.push(root_dir.clone());
        let r = Discovery {
            root: root_dir.clone(),
            pending,
            visited,
            tree: FsTree { dirs: Vec::new() },
        };
        proof {
            assert(r.pending.deep_view() =~= seq![root_dir@]);
            assert(r.visited.deep_view() =~= seq![root_dir@]);
            assert(r.visited.deep_view()[0] == r.root@);
        }
        r
    }

    /// The directory whose manifest should be read next, if any.
    pub fn next_dir(&self) -> (r: Option<String>)
        ensures
            r is Some <==> self.pending.deep_view().len() > 0,
            r is Some ==> r->0@ == self.pending.deep_view().last(),
    {
        if self.pending.len() == 0 {
            None
        } else {
            let d = self.pending[self.pending.len() - 1].clone();
            proof {
                assert(self.pending.deep_view().last() == self.pending@[
                    self.pending@.len() - 1
                ]@);
            }
            Some(d)
        }
    }

    /// Whether every wanted manifest has been supplied.
    pub fn finished(&self) -> (r: bool)
        ensures
            r == (self.pending.deep_view().len() == 0),
    {
        self.pending.len() == 0
    }

    /// Supply the manifest text of the directory that [`Self::next_dir`]
    /// asked for.  On success the directory joins the tree with its
    /// parsed dependency table, and any local dependency not seen before
    /// becomes pending; a text that is not valid TOML aborts discovery
    /// with a parse error naming the directory.
    #[verifier::loop_isolation(false)]
    pub fn supply(&mut self, text: &String) -> (r: Result<(), VendorError>)
        requires
            old(self).wf(),
            old(self).pending.deep_view().len() > 0,
        ensures
            final(self).root == old(self).root,
            match r {
                Ok(()) => {
                    &&& final(self).wf()
                    &&& toml_doc_model(text@) is Some
                    &&& final(self).tree.dirs@.len() == old(self).tree.dirs@.len() + 1
                    &&& final(self).tree.dirs@.subrange(0, old(self).tree.dirs@.len() as int)
                        == old(self).tree.dirs@
                    &&& final(self).tree.dirs@.last().path@ == old(
                        self,
                    ).pending.deep_view().last()
                    &&& final(self).tree.dirs@.last().text@ == text@
                    &&& man_model(final(self).tree.dirs@.last().manifest) == (toml_doc_model(
                        text@,
                    )->0).0
                },
                Err(e) => {
                    &&& e is ManifestParse
                    &&& toml_doc_model(text@) is None
                    &&& error_path(e) == old(self).pending.deep_view().last()
                    &&& final(self).tree == old(self).tree
                    &&& final(self).visited == old(self).visited
                    &&& final(self).pending.deep_view() == old(
                        self,
                    ).pending.deep_view().drop_last()
                },
            },
    {
        let ghost pend0 = self.pending.deep_view();
        let ghost vis0 = self.visited.deep_view();
        let dir = match self.pending.pop() {
            Some(dir) => dir,
            None => {
                proof {
                    assert(false);
                }
                return Ok(());
            },
        };
        proof {
            assert(dir@ == pend0.last());
            assert(self.pending.deep_view() =~= pend0.drop_last());
        }
        let m = match parse_manifest(text, &dir) {
            Err(e) => {
                return Err(e);
            },
            Ok(m) => m,
        };
        let ghost pend1 = self.pending.deep_view();
        let mut k: usize = 0;
        while k < m.deps.len()
            invariant
                k <= m.deps.len(),
                self.pending.deep_view().no_duplicates(),
                self.visited.deep_view().no_duplicates(),
                self.visited.deep_view().contains(self.root@),
                // everything once seen stays seen, in place
                vis0.len() <= self.visited.deep_view().len(),
                forall|i: int|
                    0 <= i < vis0.len() ==> #[trigger] self.visited.deep_view()[i] == vis0[i],
                // the old pending, minus the popped top, stays in place
                self.pending.deep_view().len() >= pend1.len(),
                forall|i: int|
                    0 <= i < pend1.len() ==> #[trigger] self.pending.deep_view()[i] == pend1[i],
                // pending and newly seen directories are seen
                forall|i: int|
                    0 <= i < self.pending.deep_view().len() ==> self.visited.deep_view().contains(
                        #[trigger] self.pending.deep_view()[i],
                    ),
                // the collected tree has not changed
                self.tree == old(self).tree,
                self.root == old(self).root,
                // collected directories stay off the pending list
                forall|i: int, j: int|
                    #![trigger self.tree.dirs@[i], self.pending.deep_view()[j]]
                    0 <= i < self.tree.dirs@.len() && 0 <= j < self.pending.deep_view().len()
                        ==> self.tree.dirs@[i].path@ != self.pending.deep_view()[j],
                // the popped directory is seen and not pending again
                self.visited.deep_view().contains(dir@),
                !self.pending.deep_view().contains(dir@),
                // each dependency handled so far resolves to a seen directory
                forall|j: int|
                    0 <= j < k && entry_is_local(#[trigger] man_model(m)[j])
                        ==> self.visited.deep_view().contains(
                        spec_resolve(dir@, entry_path(man_model(m)[j])),
                    ),
                // fresh directories go to both lists, in lockstep
                self.visited.deep_view().len() - vis0.len() == self.pending.deep_view().len()
                    - pend1.len(),
                forall|w: int|
                    0 <= w < self.visited.deep_view().len() - vis0.len()
                        ==> #[trigger] self.visited.deep_view()[vis0.len() + w]
                        == self.pending.deep_view()[pend1.len() + w],
            decreases m.deps.len() - k,
        {
            let dep = &m.deps[k];
            proof {
                assert(man_model(m)[k as int] == crate::manifest::dep_model(m.deps@[k as int]));
            }
            match dep.source.local_path() {
                None => {},
                Some(p) => {
                    let rp = crate::paths::resolve_path(dir.as_str(), p.as_str());
                    proof {
                        assert(rp@ == spec_resolve(dir@, entry_path(man_model(m)[k as int])));
                    }
                    if !contains_string_vec(&self.visited, &rp) {
                        proof {
                            lemma_no_dup_push(self.visited.deep_view(), rp@);
                            lemma_no_dup_push(self.pending.deep_view(), rp@);
                        }
                        let ghost visk = self.visited.deep_view();
                        let ghost pendk = self.pending.deep_view();
                        self.visited.push(rp.clone());
                        self.pending.push(rp.clone());
                        proof {
                            assert(self.visited.deep_view() =~= visk.push(rp@));
                            assert(self.pending.deep_view() =~= pendk.push(rp@));
                            assert(self.visited.deep_view().contains(rp@)) by {
                                assert(self.visited.deep_view()[visk.len() as int] == rp@);
                            }
                            assert forall|i: int|
                                0 <= i < self.pending.deep_view().len() implies self
                                .visited.deep_view().contains(
                                #[trigger] self.pending.deep_view()[i],
                            ) by {
                                if i < pendk.len() {
                                    assert(pendk[i] == self.pending.deep_view()[i]);
                                    assert(visk.contains(pendk[i]));
                                    let w = choose|w: int|
                                        0 <= w < visk.len() && visk[w] == pendk[i];
                                    assert(self.visited.deep_view()[w] == pendk[i]);
                                }
                            }
                            assert forall|i: int|
                                0 <= i < visk.len() implies self.visited.deep_view().contains(
                                #[trigger] visk[i],
                            ) by {
                                assert(self.visited.deep_view()[i] == visk[i]);
                            }
                            assert forall|i: int, j: int|
                                #![trigger self.tree.dirs@[i], self.pending.deep_view()[j]]
                                0 <= i < self.tree.dirs@.len() && 0 <= j < self
                                .pending.deep_view().len() implies self.tree.dirs@[i].path@
                                != self.pending.deep_view()[j] by {
                                if j < pendk.len() {
                                    assert(self.pending.deep_view()[j] == pendk[j]);
                                } else {
                                    assert(self.pending.deep_view()[j] == rp@);
                                    assert(vis0.contains(self.tree.dirs@[i].path@));
                                    lemma_contains_prefix(
                                        vis0,
                                        visk,
                                        self.tree.dirs@[i].path@,
                                    );
                                }
                            }
                        }
                    } else {
                    }
                },
            }
            k = k + 1;
        }
        let ghost vis2 = self.visited.deep_view();
        let ghost pend2 = self.pending.deep_view();
        let ghost dirs0 = self.tree.dirs@;
        self.tree.dirs.push(FsDir { path: dir, manifest: m, text: text.clone() });
        proof {
            assert(self.tree.dirs@ =~= dirs0.push(self.tree.dirs@.last()));
            assert(self.tree.dirs@.subrange(0, dirs0.len() as int) =~= dirs0);
            assert(tree_keys(self.tree.dirs@) =~= tree_keys(dirs0).push(
                self.tree.dirs@.last().path@,
            ));
            assert(!tree_keys(dirs0).contains(self.tree.dirs@.last().path@)) by {
                if tree_keys(dirs0).contains(pend0.last()) {
                    let i = choose|i: int|
                        0 <= i < tree_keys(dirs0).len() && tree_keys(dirs0)[i] == pend0.last();
                    assert(dirs0[i].path@ == pend0.last());
                    assert(pend0[pend0.len() - 1] == pend0.last());
                }
            }
            lemma_no_dup_push(tree_keys(dirs0), self.tree.dirs@.last().path@);
            assert(self.wf()) by {
                assert forall|i: int|
                    0 <= i < self.tree.dirs@.len() implies self.visited.deep_view().contains(
                    (#[trigger] self.tree.dirs@[i]).path@,
                ) by {
                    if i < dirs0.len() {
                        assert(self.tree.dirs@[i] == dirs0[i]);
                        lemma_contains_prefix(vis0, self.visited.deep_view(), dirs0[i].path@);
                    }
                }
                assert forall|i: int|
                    0 <= i < self.visited.deep_view().len() implies tree_keys(
                    self.tree.dirs@,
                ).contains(#[trigger] self.visited.deep_view()[i]) || self
                    .pending.deep_view().contains(self.visited.deep_view()[i]) by {
                    let v = self.visited.deep_view()[i];
                    if i < vis0.len() {
                        assert(vis0[i] == v);
                        if tree_keys(dirs0).contains(v) {
                            let w = choose|w: int|
                                0 <= w < tree_keys(dirs0).len() && tree_keys(dirs0)[w] == v;
                            assert(tree_keys(self.tree.dirs@)[w] == v);
                        } else if pend0.contains(v) {
                            let w = choose|w: int| 0 <= w < pend0.len() && pend0[w] == v;
                            if w < pend0.len() - 1 {
                                assert(pend1[w] == v);
                                assert(self.pending.deep_view()[w] == v);
                            } else {
                                assert(v == dir@);
                                assert(tree_keys(self.tree.dirs@)[dirs0.len() as int] == v);
                            }
                        }
                    } else {
                        // seen during this call: it was pushed to pending too
                        assert(self.pending.deep_view().contains(v)) by {
                            lemma_fresh_visited_pending(
                                vis0,
                                pend1,
                                vis2,
                                pend2,
                                self.visited.deep_view(),
                                self.pending.deep_view(),
                                i,
                            );
                        }
                    }
                }
                assert forall|i: int, j: int|
                    0 <= i < self.tree.dirs@.len() && 0 <= j < man_model(
                        (#[trigger] self.tree.dirs@[i]).manifest,
                    ).len() && entry_is_local(#[trigger] man_model(self.tree.dirs@[i].manifest)[j])
                        implies self.visited.deep_view().contains(
                        spec_resolve(
                            self.tree.dirs@[i].path@,
                            entry_path(man_model(self.tree.dirs@[i].manifest)[j]),
                        ),
                    ) by {
                    if i < dirs0.len() {
                        assert(self.tree.dirs@[i] == dirs0[i]);
                        let t = spec_resolve(
                            dirs0[i].path@,
                            entry_path(man_model(dirs0[i].manifest)[j]),
                        );
                        assert(vis0.contains(t));
                        let w = choose|w: int| 0 <= w < vis0.len() && vis0[w] == t;
                        assert(self.visited.deep_view()[w] == t);
                    } else {
                        assert(self.tree.dirs@[i].manifest == m);
                        assert(self.tree.dirs@[i].path@ == dir@);
                    }
                }
            }
        }
        Ok(())
    }
}

/// An element of a sequence is an element of any longer sequence that
/// keeps it in place.
proof fn lemma_contains_prefix(small: Seq<Seq<char>>, big: Seq<Seq<char>>, x: Seq<char>)
    requires
        small.len() <= big.len(),
        forall|i: int| 0 <= i < small.len() ==> #[trigger] big[i] == small[i],
        small.contains(x),
    ensures
        big.contains(x),
{
    let w = choose|w: int| 0 <= w < small.len() && small[w] == x;
    assert(big[w] == x);
}

/// A directory seen only during this call was pushed to both lists; this
/// packages the index chase from the loop's monotonicity facts.
proof fn lemma_fresh_visited_pending(
    vis0: Seq<Seq<char>>,
    pend1: Seq<Seq<char>>,
    vis2: Seq<Seq<char>>,
    pend2: Seq<Seq<char>>,
    vis_now: Seq<Seq<char>>,
    pend_now: Seq<Seq<char>>,
    i: int,
)
    requires
        vis_now == vis2,
        pend_now == pend2,
        vis0.len() <= i < vis2.len(),
        vis2.len() - vis0.len() == pend2.len() - pend1.len(),
        forall|w: int|
            0 <= w < vis2.len() - vis0.len() ==> #[trigger] vis2[vis0.len() + w] == pend2[
                pend1.len() + w
            ],
    ensures
        pend_now.contains(vis_now[i]),
{
    let w = i - vis0.len();
    assert(vis2[vis0.len() + w] == pend2[pend1.len() + w]);
    assert(pend_now[pend1.len() + w] == vis_now[i]);
}

/// A path among the snapshot's keys is found by lookup.
pub proof fn lemma_keys_tree_at(dirs: Seq<FsDir>, dir: Seq<char>)
    requires
        tree_keys(dirs).contains(dir),
    ensures
        tree_dir_at(dirs, dir) is Some,
    decreases dirs.len(),
{
    if dirs.len() == 0 {
    } else if dirs[0].path@ == dir {
    } else {
        let tail = dirs.subrange(1, dirs.len() as int);
        let i = choose|i: int| 0 <= i < dirs.len() && tree_keys(dirs)[i] == dir;
        assert(dirs[i].path@ == dir);
        assert(tail[i - 1] == dirs[i]);
        assert(tree_keys(tail)[i - 1] == dir);
        lemma_keys_tree_at(tail, dir);
    }
}

/// What lookup finds sits at some index of the snapshot.
pub proof fn lemma_tree_dir_at_index(dirs: Seq<FsDir>, dir: Seq<char>)
    requires
        tree_dir_at(dirs, dir) is Some,
    ensures
        exists|i: int|
            0 <= i < dirs.len() && #[trigger] dirs[i] == tree_dir_at(dirs, dir)->0 && dirs[i].path@
                == dir,
    decreases dirs.len(),
{
    if dirs.len() == 0 {
    } else if dirs[0].path@ == dir {
        assert(dirs[0] == tree_dir_at(dirs, dir)->0);
    } else {
        let tail = dirs.subrange(1, dirs.len() as int);
        lemma_tree_dir_at_index(tail, dir);
        let i = choose|i: int|
            0 <= i < tail.len() && #[trigger] tail[i] == tree_dir_at(tail, dir)->0 && tail[i].path@
                == dir;
        assert(dirs[i + 1] == tree_dir_at(dirs, dir)->0);
    }
}

/// Closure phrased over lookup: every local dependency of any directory
/// that lookup finds resolves to a directory that lookup also finds.
pub open spec fn dirs_closed(dirs: Seq<FsDir>) -> bool {
    forall|d: Seq<char>, j: int|
        #![trigger tree_at(dirs, d)->0[j]]
        tree_at(dirs, d) is Some && 0 <= j < tree_at(dirs, d)->0.len() && entry_is_local(
            tree_at(dirs, d)->0[j],
        ) ==> tree_at(dirs, spec_resolve(d, entry_path(tree_at(dirs, d)->0[j]))) is Some
}

/// A finished discovery's snapshot is closed, and holds the root.
pub proof fn lemma_discovery_closed(d: Discovery)
    requires
        d.wf(),
        d.pending.deep_view().len() == 0,
    ensures
        dirs_closed(d.tree.dirs@),
        tree_at(d.tree.dirs@, d.root@) is Some,
{
    let dirs = d.tree.dirs@;
    assert forall|p: Seq<char>| d.visited.deep_view().contains(p) implies tree_at(
        dirs,
        p,
    ) is Some by {
        let i = choose|i: int|
            0 <= i < d.visited.deep_view().len() && d.visited.deep_view()[i] == p;
        assert(tree_keys(dirs).contains(p) || d.pending.deep_view().contains(
            d.visited.deep_view()[i],
        ));
        lemma_keys_tree_at(dirs, p);
    }
    assert forall|dd: Seq<char>, j: int|
        tree_at(dirs, dd) is Some && 0 <= j < tree_at(dirs, dd)->0.len() && entry_is_local(
            #[trigger] tree_at(dirs, dd)->0[j],
        ) implies tree_at(
        dirs,
        spec_resolve(dd, entry_path(tree_at(dirs, dd)->0[j])),
    ) is Some by {
        lemma_tree_dir_at_index(dirs, dd);
        let i = choose|i: int|
            0 <= i < dirs.len() && #[trigger] dirs[i] == tree_dir_at(dirs, dd)->0 && dirs[i].path@
                == dd;
        assert(man_model(dirs[i].manifest) == tree_at(dirs, dd)->0);
        assert(d.visited.deep_view().contains(
            spec_resolve(dirs[i].path@, entry_path(man_model(dirs[i].manifest)[j])),
        ));
    }
}

/// Over a closed snapshot, the traversal cannot abort: every frame's
/// directory and every resolved dependency is found.
pub proof fn lemma_closed_run_ok(
    dirs: Seq<FsDir>,
    stack: Seq<(Seq<char>, int)>,
    processed: Seq<Seq<char>>,
    entries: Seq<(Seq<char>, Seq<char>)>,
)
    requires
        run_inv(dirs, processed),
        dirs_closed(dirs),
        forall|j: int|
            0 <= j < stack.len() ==> tree_at(dirs, (#[trigger] stack[j]).0) is Some,
    ensures
        spec_run(dirs, stack, processed, entries) is Ok,
    decreases dirs.len() - processed.len(), crate::vendor::stack_rem(dirs, stack), stack.len(),
{
    lemma_processed_bound(dirs, processed);
    lemma_stack_rem_nonneg(dirs, stack);
    if stack.len() == 0 {
    } else {
        let f = stack.last();
        assert(tree_at(dirs, f.0) is Some);
        let deps = tree_at(dirs, f.0)->0;
        if f.1 < 0 || f.1 >= deps.len() {
            assert(crate::vendor::stack_rem(dirs, stack) == crate::vendor::frame_rem(dirs, f)
                + crate::vendor::stack_rem(dirs, stack.drop_last()));
            lemma_stack_rem_nonneg(dirs, stack.drop_last());
            lemma_closed_run_ok(dirs, stack.drop_last(), processed, entries);
        } else {
            let e = deps[f.1];
            let advanced = stack.drop_last().push((f.0, f.1 + 1));
            lemma_stack_rem_advance(dirs, stack, deps);
            lemma_stack_rem_nonneg(dirs, advanced);
            assert forall|j: int|
                0 <= j < advanced.len() implies tree_at(
                dirs,
                (#[trigger] advanced[j]).0,
            ) is Some by {
                if j < stack.len() - 1 {
                    assert(advanced[j] == stack[j]);
                } else {
                    assert(advanced[j].0 == f.0);
                }
            }
            if !entry_is_local(e) {
                lemma_closed_run_ok(dirs, advanced, processed, entries);
            } else {
                let r = spec_resolve(f.0, entry_path(e));
                assert(tree_at(dirs, r) is Some);
                if processed.contains(r) {
                    lemma_closed_run_ok(dirs, advanced, processed, entries);
                } else {
                    lemma_no_dup_push(processed, r);
                    assert(run_inv(dirs, processed.push(r))) by {
                        assert(forall|i: int|
                            0 <= i < processed.len() ==> processed.push(r)[i] == processed[i]);
                        assert(processed.push(r)[processed.len() as int] == r);
                    }
                    lemma_processed_bound(dirs, processed.push(r));
                    let st2 = advanced.push((r, 0int));
                    lemma_stack_rem_nonneg(dirs, st2);
                    assert forall|j: int|
                        0 <= j < st2.len() implies tree_at(dirs, (#[trigger] st2[j]).0) is Some by {
                        if j < advanced.len() {
                            assert(st2[j] == advanced[j]);
                        } else {
                            assert(st2[j].0 == r);
                        }
                    }
                    lemma_closed_run_ok(dirs, st2, processed.push(r), entries.push((e.0, r)));
                }
            }
        }
    }
}

impl Discovery {
    /// Vendor over the finished snapshot.  Discovery collected every
    /// directory the traversal can reach, so the run cannot fail: the
    /// result is a staged model satisfying
    /// [`crate::vendor::vendor_ok`].
    pub fn vendor(&self) -> (r: Staged)
        requires
            self.wf(),
            self.pending.deep_view().len() == 0,
        ensures
            vendor_ok(self.tree.dirs@, self.root@, r),
    {
        proof {
            lemma_discovery_closed(*self);
            assert(crate::vendor::init_stack(self.root@)[0].0 == self.root@);
            lemma_closed_run_ok(
                self.tree.dirs@,
                crate::vendor::init_stack(self.root@),
                Seq::empty(),
                Seq::empty(),
            );
        }
        match LocalDependencies::vendor(&self.tree, &self.root) {
            Ok(st) => st,
            Err(e) => {
                proof {
                    assert(false);
                }
                Staged { root_manifest: crate::manifest::Manifest { deps: Vec::new() }, entries: Vec::new() }
            },
        }
    }
}

/// Whether `x` is one of the strings of `v`.
fn contains_string_vec(v: &Vec<String>, x: &String) -> (r: bool)
    ensures
        r == v.deep_view().contains(x@),
{
    let mut i: usize = 0;
    while i < v.len()
        invariant
            i <= v.len(),
            forall|j: int| 0 <= j < i ==> v.deep_view()[j] != x@,
        decreases v.len() - i,
    {
        let vi = &v[i];
        proof {
            assert(v.deep_view()[i as int] == v@[i as int]@);
        }
        if *vi == *x {
            return true;
        }
        i = i + 1;
    }
    false
}

} // verus!
