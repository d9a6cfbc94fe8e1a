//! The model of a package manifest, reduced to what vendoring reads: the
//! `dependencies` table, each entry either a registry reference (left
//! untouched) or a local-path specification in one of the two shapes that
//! real manifests use, a whole dependency table or an inline table.

use vstd::prelude::*;

verus! {

/// The spec-level shape of one dependency entry: its name, and — when the
/// entry carries a `path` key — whether the entry is an inline table and
/// the path's text.
pub type DepEntryModel = (Seq<char>, Option<(bool, Seq<char>)>);

/// How a dependency entry spells its specification.
#[derive(Debug, Clone, PartialEq, Eq)]
pub enum DepSource {
    /// A version string or any other specification without a `path` key.
    Registry,
    /// A whole `[dependencies.<name>]` table with a `path` key.
    PathTable { path: String },
    /// An inline table `{ path = "..." }`.
    PathInline { path: String },
}

/// One entry of a `dependencies` table.
#[derive(Debug, Clone, PartialEq, Eq)]
pub struct Dep {
    pub name: String,
    pub source: DepSource,
}

/// The dependency table of one manifest, in declaration order.
#[derive(Debug, Clone, PartialEq, Eq)]
pub struct Manifest {
    pub deps: Vec<Dep>,
}

pub open spec fn source_model(s: DepSource) -> Option<(bool, Seq<char>)> {
    match s {
        DepSource::Registry => None,
        DepSource::PathTable { path } => Some((false, path@)),
        DepSource::PathInline { path } => Some((true, path@)),
    }
}

pub open spec fn dep_model(d: Dep) -> DepEntryModel {
    (d.name@, source_model(d.source))
}

pub open spec fn man_model(m: Manifest) -> Seq<DepEntryModel> {
    m.deps@.map_values(|d: Dep| dep_model(d))
}

/// Whether an entry carries a local path.
pub open spec fn entry_is_local(e: DepEntryModel) -> bool {
    e.1 is Some
}

/// The path text of a local entry.
pub open spec fn entry_path(e: DepEntryModel) -> Seq<char> {
    (e.1->0).1
}

impl DepSource {
    /// The shared accessor for the optional path field: the path text of
    /// either local shape, and nothing for a registry reference.
    pub fn local_path(&self) -> (r: Option<&String>)
        ensures
            match r {
                Some(p) => source_model(*self) is Some && p@ == (source_model(*self)->0).1,
                None => source_model(*self) is None,
            },
    {
        match self {
            DepSource::Registry => None,
            DepSource::PathTable { path } => Some(path),
            DepSource::PathInline { path } => Some(path),
        }
    }
}

impl Manifest {
    pub fn new() -> (r: Manifest)
        ensures
            man_model(r) =~= Seq::<DepEntryModel>::empty(),
    {
        Manifest { deps: Vec::new() }
    }
}

/// The staged form of a local path: `../` followed by the dependency's own
/// name, the location its package is copied to within the staging area.
pub open spec fn staged_path(name: Seq<char>) -> Seq<char> {
    "../"@ + name
}

/// One entry after rewriting: a local path is redirected to the staged
/// sibling named after the entry; anything else is untouched.
pub open spec fn rewrite_entry(e: DepEntryModel) -> DepEntryModel {
    match e.1 {
        None => e,
        Some((inline, _)) => (e.0, Some((inline, staged_path(e.0)))),
    }
}

/// A whole dependency table after rewriting.
pub open spec fn rewrite_deps(deps: Seq<DepEntryModel>) -> Seq<DepEntryModel> {
    deps.map_values(|e: DepEntryModel| rewrite_entry(e))
}

/// The staged relative path for a dependency name, as text.
pub fn staged_rel_path(name: &String) -> (r: String)
    ensures
        r@ == staged_path(name@),
{
    let mut r = String::from_str("../");
    r.append(name.as_str());
    r
}

/// Rewrite a manifest model: every local entry's path becomes `../` plus
/// the entry's name, keeping its shape; registry entries are returned as
/// they came.
pub fn rewrite_manifest(m: &Manifest) -> (r: Manifest)
    ensures
        man_model(r) == rewrite_deps(man_model(*m)),
{
    let mut deps: Vec<Dep> = Vec::new();
    let mut i: usize = 0;
    while i < m.deps.len()
        invariant
            i <= m.deps.len(),
            deps@.len() == i,
            forall|k: int|
                0 <= k < i ==> dep_model(deps@[k]) == rewrite_entry(man_model(*m)[k]),
        decreases m.deps.len() - i,
    {
        let d = &m.deps[i];
        let nd = match &d.source {
            DepSource::Registry => Dep { name: d.name.clone(), source: DepSource::Registry },
            DepSource::PathTable { path: _ } => Dep {
                name: d.name.clone(),
                source: DepSource::PathTable { path: staged_rel_path(&d.name) },
            },
            DepSource::PathInline { path: _ } => Dep {
                name: d.name.clone(),
                source: DepSource::PathInline { path: staged_rel_path(&d.name) },
            },
        };
        proof {
            assert(man_model(*m)[i as int] == dep_model(m.deps@[i as int]));
        }
        deps.push(nd);
        i = i + 1;
    }
    let r = Manifest { deps };
    proof {
        assert(man_model(r) =~= rewrite_deps(man_model(*m)));
    }
    r
}

} // verus!
