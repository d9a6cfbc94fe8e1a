//! The laws of a successful vendoring run, stated over the model that
//! [`crate::vendor::vendor_ok`] gives to every result of
//! [`crate::vendor::LocalDependencies::vendor`].

use vstd::prelude::*;

use crate::manifest::entry_is_local;
use crate::manifest::entry_path;
use crate::manifest::man_model;
use crate::manifest::rewrite_deps;
use crate::manifest::rewrite_entry;
use crate::paths::spec_resolve;
use crate::vendor::FsDir;
use crate::vendor::Staged;
use crate::vendor::entry_origs;
use crate::vendor::entry_sourced;
use crate::vendor::entry_models;
use crate::vendor::tree_at;
use crate::vendor::tree_keys;
use crate::vendor::lemma_tree_at_contains;
use crate::vendor::vendor_ok;

verus! {

/// Idempotence of discovery: the staged model is a function of the
/// snapshot and the root alone.  Two successful runs over an unchanged
/// source tree stage the same packages, under the same names, from the
/// same original directories, with the same rewritten manifests.
pub proof fn lemma_vendor_idempotent(
    dirs: Seq<FsDir>,
    root: Seq<char>,
    st1: Staged,
    st2: Staged,
)
    requires
        vendor_ok(dirs, root, st1),
        vendor_ok(dirs, root, st2),
    ensures
        entry_models(st1.entries@) == entry_models(st2.entries@),
        st1.entries@.len() == st2.entries@.len(),
        man_model(st1.root_manifest) == man_model(st2.root_manifest),
        forall|k: int|
            0 <= k < st1.entries@.len() ==> man_model((#[trigger] st1.entries@[k]).manifest)
                == man_model(st2.entries@[k].manifest),
{
    assert(entry_models(st1.entries@) == entry_models(st2.entries@));
    assert(entry_models(st1.entries@).len() == st1.entries@.len());
    assert forall|k: int| 0 <= k < st1.entries@.len() implies man_model(
        (#[trigger] st1.entries@[k]).manifest,
    ) == man_model(st2.entries@[k].manifest) by {
        assert(entry_models(st1.entries@)[k] == entry_models(st2.entries@)[k]);
        assert(st1.entries@[k].orig_dir@ == st2.entries@[k].orig_dir@);
    }
}

/// No duplication: however many manifests reference the same resolved
/// original directory, it is staged exactly once — two distinct staged
/// entries always come from distinct original directories.
pub proof fn lemma_vendor_no_duplication(
    dirs: Seq<FsDir>,
    root: Seq<char>,
    st: Staged,
)
    requires
        vendor_ok(dirs, root, st),
    ensures
        forall|k1: int, k2: int|
            0 <= k1 < st.entries@.len() && 0 <= k2 < st.entries@.len() && k1 != k2
                ==> (#[trigger] st.entries@[k1]).orig_dir@ != (#[trigger] st.entries@[k2]).orig_dir@,
{
    let origs = entry_origs(st.entries@);
    assert forall|k1: int, k2: int|
        0 <= k1 < st.entries@.len() && 0 <= k2 < st.entries@.len() && k1 != k2 implies (
    #[trigger] st.entries@[k1]).orig_dir@ != (#[trigger] st.entries@[k2]).orig_dir@ by {
        assert(origs[k1] == st.entries@[k1].orig_dir@);
        assert(origs[k2] == st.entries@[k2].orig_dir@);
    }
}

/// Completeness: every local-path dependency declared by the root
/// manifest or by a staged package resolves to the original directory of
/// some staged entry.
pub proof fn lemma_vendor_complete(
    dirs: Seq<FsDir>,
    root: Seq<char>,
    st: Staged,
)
    requires
        vendor_ok(dirs, root, st),
    ensures
        forall|j: int|
            0 <= j < tree_at(dirs, root)->0.len() && entry_is_local(
                #[trigger] tree_at(dirs, root)->0[j],
            ) ==> exists|m: int|
                0 <= m < st.entries@.len() && (#[trigger] st.entries@[m]).orig_dir@
                    == spec_resolve(root, entry_path(tree_at(dirs, root)->0[j])),
        forall|k: int, j: int|
            0 <= k < st.entries@.len() && 0 <= j < tree_at(
                dirs,
                (#[trigger] st.entries@[k]).orig_dir@,
            )->0.len() && entry_is_local(#[trigger] tree_at(dirs, st.entries@[k].orig_dir@)->0[j])
                ==> exists|m: int|
                0 <= m < st.entries@.len() && (#[trigger] st.entries@[m]).orig_dir@
                    == spec_resolve(
                    st.entries@[k].orig_dir@,
                    entry_path(tree_at(dirs, st.entries@[k].orig_dir@)->0[j]),
                ),
{
    let origs = entry_origs(st.entries@);
    assert forall|j: int|
        0 <= j < tree_at(dirs, root)->0.len() && entry_is_local(
            #[trigger] tree_at(dirs, root)->0[j],
        ) implies exists|m: int|
        0 <= m < st.entries@.len() && (#[trigger] st.entries@[m]).orig_dir@ == spec_resolve(
            root,
            entry_path(tree_at(dirs, root)->0[j]),
        ) by {
        let t = spec_resolve(root, entry_path(tree_at(dirs, root)->0[j]));
        assert(origs.contains(t));
        let m = choose|m: int| 0 <= m < origs.len() && origs[m] == t;
        assert(st.entries@[m].orig_dir@ == t);
    }
    assert forall|k: int, j: int|
        0 <= k < st.entries@.len() && 0 <= j < tree_at(
            dirs,
            (#[trigger] st.entries@[k]).orig_dir@,
        )->0.len() && entry_is_local(
            #[trigger] tree_at(dirs, st.entries@[k].orig_dir@)->0[j],
        ) implies exists|m: int|
        0 <= m < st.entries@.len() && (#[trigger] st.entries@[m]).orig_dir@ == spec_resolve(
            st.entries@[k].orig_dir@,
            entry_path(tree_at(dirs, st.entries@[k].orig_dir@)->0[j]),
        ) by {
        let d = st.entries@[k].orig_dir@;
        let t = spec_resolve(d, entry_path(tree_at(dirs, d)->0[j]));
        assert(origs[k] == d);
        assert(crate::vendor::dir_closed(dirs, origs, d));
        assert(origs.contains(t));
        let m = choose|m: int| 0 <= m < origs.len() && origs[m] == t;
        assert(st.entries@[m].orig_dir@ == t);
    }
}

/// Path rewrite correctness, entry by entry: every staged manifest — the
/// root's and every staged package's — is its snapshot manifest with each
/// local entry's path redirected to `../` plus the entry's own name, and
/// every other entry untouched.
pub proof fn lemma_vendor_rewrite(
    dirs: Seq<FsDir>,
    root: Seq<char>,
    st: Staged,
)
    requires
        vendor_ok(dirs, root, st),
    ensures
        forall|j: int|
            0 <= j < tree_at(dirs, root)->0.len() ==> man_model(st.root_manifest)[j]
                == rewrite_entry(#[trigger] tree_at(dirs, root)->0[j]),
        forall|k: int, j: int|
            0 <= k < st.entries@.len() && 0 <= j < tree_at(
                dirs,
                (#[trigger] st.entries@[k]).orig_dir@,
            )->0.len() ==> man_model(st.entries@[k].manifest)[j] == rewrite_entry(
                #[trigger] tree_at(dirs, st.entries@[k].orig_dir@)->0[j],
            ),
{
    assert(man_model(st.root_manifest) == rewrite_deps(tree_at(dirs, root)->0));
}

/// The snapshot names its local dependencies consistently: any two
/// dependency entries — in the root's manifest or in any snapshot
/// directory's — whose paths resolve to the same original directory carry
/// the same dependency name.
pub open spec fn naming_consistent(dirs: Seq<FsDir>, root: Seq<char>) -> bool {
    forall|s1: Seq<char>, j1: int, s2: Seq<char>, j2: int|
        {
            ((s1 == root || tree_keys(dirs).contains(s1)) && (s2 == root || tree_keys(
                dirs,
            ).contains(s2)) && tree_at(dirs, s1) is Some && tree_at(dirs, s2) is Some && 0 <= j1
                < tree_at(dirs, s1)->0.len() && 0 <= j2 < tree_at(dirs, s2)->0.len()
                && entry_is_local(#[trigger] tree_at(dirs, s1)->0[j1]) && entry_is_local(
                #[trigger] tree_at(dirs, s2)->0[j2],
            ) && spec_resolve(s1, entry_path(tree_at(dirs, s1)->0[j1])) == spec_resolve(
                s2,
                entry_path(tree_at(dirs, s2)->0[j2]),
            )) ==> tree_at(dirs, s1)->0[j1].0 == tree_at(dirs, s2)->0[j2].0
        }
}

/// Path rewrite correctness, the sibling half: when the snapshot names
/// its local dependencies consistently, the `../<name>` that a staged
/// package's rewritten entry carries names an existing staged sibling:
/// some staged entry is staged under exactly that name.
///
/// Without consistent naming this fails: the package is staged under the
/// name of whichever manifest reached it first.
pub proof fn lemma_vendor_sibling(
    dirs: Seq<FsDir>,
    root: Seq<char>,
    st: Staged,
)
    requires
        vendor_ok(dirs, root, st),
        naming_consistent(dirs, root),
    ensures
        forall|k: int, j: int|
            0 <= k < st.entries@.len() && 0 <= j < tree_at(
                dirs,
                (#[trigger] st.entries@[k]).orig_dir@,
            )->0.len() && entry_is_local(#[trigger] tree_at(dirs, st.entries@[k].orig_dir@)->0[j])
                ==> exists|m: int|
                0 <= m < st.entries@.len() && (#[trigger] st.entries@[m]).name@ == tree_at(
                    dirs,
                    st.entries@[k].orig_dir@,
                )->0[j].0,
{
    let origs = entry_origs(st.entries@);
    assert forall|k: int, j: int|
        0 <= k < st.entries@.len() && 0 <= j < tree_at(
            dirs,
            (#[trigger] st.entries@[k]).orig_dir@,
        )->0.len() && entry_is_local(
            #[trigger] tree_at(dirs, st.entries@[k].orig_dir@)->0[j],
        ) implies exists|m: int|
        0 <= m < st.entries@.len() && (#[trigger] st.entries@[m]).name@ == tree_at(
            dirs,
            st.entries@[k].orig_dir@,
        )->0[j].0 by {
        let d = st.entries@[k].orig_dir@;
        let dep = tree_at(dirs, d)->0[j];
        let t = spec_resolve(d, entry_path(dep));
        assert(origs[k] == d);
        assert(crate::vendor::dir_closed(dirs, origs, d));
        assert(origs.contains(t));
        let m = choose|m: int| 0 <= m < origs.len() && origs[m] == t;
        assert(st.entries@[m].orig_dir@ == t);
        assert(entry_sourced(dirs, root, origs, st.entries@[m]));
        let (s, j2) = choose|s: Seq<char>, j2: int|
            {
                &&& (s == root || origs.contains(s))
                &&& tree_at(dirs, s) is Some
                &&& 0 <= j2 < tree_at(dirs, s)->0.len()
                &&& entry_is_local(#[trigger] tree_at(dirs, s)->0[j2])
                &&& spec_resolve(s, entry_path(tree_at(dirs, s)->0[j2]))
                    == st.entries@[m].orig_dir@
                &&& tree_at(dirs, s)->0[j2].0 == st.entries@[m].name@
            };
        if s != root {
            let i = choose|i: int| 0 <= i < origs.len() && origs[i] == s;
            assert(tree_at(dirs, st.entries@[i].orig_dir@) is Some);
            lemma_tree_at_contains(dirs, s);
        }
        lemma_tree_at_contains(dirs, d);
        assert(tree_at(dirs, s)->0[j2].0 == dep.0);
        assert(st.entries@[m].name@ == dep.0);
    }
}

} // verus!
