//! Reading and rewriting manifest text.
//!
//! The text of a manifest is parsed and edited by the `toml_edit` crate,
//! which preserves the formatting and every entry that vendoring does not
//! touch.  Verus sees the parsed document as an opaque value whose
//! dependency table and package fields are named by [`doc_model`]; what
//! parsing returns for a given text is named by [`toml_doc_model`].  The
//! functions of this module are verified against those names: rewriting a
//! manifest's text yields text that parses to exactly the rewritten
//! dependency table, with the package fields untouched.

use vstd::prelude::*;

use crate::manifest::Dep;
use crate::manifest::DepEntryModel;
use crate::manifest::DepSource;
use crate::manifest::Manifest;
use crate::manifest::man_model;
use crate::manifest::rewrite_deps;
use crate::manifest::rewrite_entry;
use crate::manifest::staged_path;
use crate::manifest::staged_rel_path;
use crate::vendor::VendorError;
use crate::vendor::error_path;

verus! {

#[verifier::external_type_specification]
#[verifier::external_body]
pub struct ExDocumentMut(toml_edit::DocumentMut);

/// What a parsed document holds, as far as this library reads it: the
/// dependency table in order, and the `package` table's `name` and
/// `version` strings if present.
pub uninterp spec fn doc_model(doc: toml_edit::DocumentMut) -> (
    Seq<DepEntryModel>,
    Option<Seq<char>>,
    Option<Seq<char>>,
);

/// What parsing a text returns: nothing when the text is not valid TOML,
/// and otherwise the parsed document's model.  Parsing is a function of
/// the text alone.
pub uninterp spec fn toml_doc_model(text: Seq<char>) -> Option<
    (Seq<DepEntryModel>, Option<Seq<char>>, Option<Seq<char>>),
>;

/// The names of a dependency table, in order.
pub open spec fn dep_names(deps: Seq<DepEntryModel>) -> Seq<Seq<char>> {
    deps.map_values(|e: DepEntryModel| e.0)
}

/// The first entry named `name`, if any: its path field.
pub open spec fn dep_path_of(deps: Seq<DepEntryModel>, name: Seq<char>) -> Option<
    (bool, Seq<char>),
>
    decreases deps.len(),
{
    if deps.len() == 0 {
        None
    } else if deps[0].0 == name {
        deps[0].1
    } else {
        dep_path_of(deps.subrange(1, deps.len() as int), name)
    }
}

/// The table after setting the path of every entry that is named `name`
/// and already carries a path; everything else keeps its value.
pub open spec fn set_path_in(
    deps: Seq<DepEntryModel>,
    name: Seq<char>,
    p: Seq<char>,
) -> Seq<DepEntryModel> {
    deps.map_values(
        |e: DepEntryModel|
            if e.0 == name && e.1 is Some {
                (e.0, Some(((e.1->0).0, p)))
            } else {
                e
            },
    )
}

/// Relies on `str::parse::<toml_edit::DocumentMut>`: parses TOML text into
/// an editable document, succeeding exactly on valid documents.  TOML
/// forbids a table from holding one key twice, so the parsed dependency
/// names are distinct.
#[verifier::external_body]
fn parse_toml(text: &str) -> (r: Option<toml_edit::DocumentMut>)
    ensures
        r is Some <==> toml_doc_model(text@) is Some,
        r is Some ==> doc_model(r->0) == toml_doc_model(text@)->0,
        r is Some ==> dep_names(doc_model(r->0).0).no_duplicates(),
{
    text.parse::<toml_edit::DocumentMut>().ok()
}

/// Relies on `toml_edit::Table::get` and `Item::as_table_like`: the keys
/// of the document's `dependencies` table, in order.
#[verifier::external_body]
fn doc_dep_names(doc: &toml_edit::DocumentMut) -> (r: Vec<String>)
    ensures
        r.deep_view() == dep_names(doc_model(*doc).0),
{
    match doc.get("dependencies").and_then(toml_edit::Item::as_table_like) {
        Some(t) => t.iter().map(|(k, _)| k.to_string()).collect(),
        None => Vec::new(),
    }
}

/// Relies on `toml_edit::TableLike::get`, `Item::as_value` and the
/// `Item`/`Value` variants: the `path` string of the dependency entry
/// named `name`, with whether the entry is an inline table, when the
/// entry exists in either recognized shape.
#[verifier::external_body]
fn doc_dep_path(doc: &toml_edit::DocumentMut, name: &str) -> (r: Option<(bool, String)>)
    ensures
        match r {
            None => dep_path_of(doc_model(*doc).0, name@) is None,
            Some(p) => dep_path_of(doc_model(*doc).0, name@) is Some && p.0 == (dep_path_of(
                doc_model(*doc).0,
                name@,
            )->0).0 && p.1@ == (dep_path_of(doc_model(*doc).0, name@)->0).1,
        },
{
    let item = doc.get("dependencies").and_then(toml_edit::Item::as_table_like)?.get(name)?;
    match item {
        toml_edit::Item::Table(t) => match t.get("path").and_then(toml_edit::Item::as_value) {
            Some(toml_edit::Value::String(p)) => Some((false, p.value().clone())),
            _ => None,
        },
        toml_edit::Item::Value(toml_edit::Value::InlineTable(t)) => match t.get("path") {
            Some(toml_edit::Value::String(p)) => Some((true, p.value().clone())),
            _ => None,
        },
        _ => None,
    }
}

/// Relies on `toml_edit::TableLike::get_mut`, `Item::as_value_mut` and
/// `Value::from`: replaces the `path` string of the dependency entry
/// named `name`, in either recognized shape, leaving every entry without
/// a string path and the rest of the document as they were.
#[verifier::external_body]
fn doc_set_dep_path(doc: &mut toml_edit::DocumentMut, name: &str, new_path: &str)
    ensures
        doc_model(*final(doc)) == (
            set_path_in(doc_model(*old(doc)).0, name@, new_path@),
            doc_model(*old(doc)).1,
            doc_model(*old(doc)).2,
        ),
{
    let deps = doc.get_mut("dependencies").and_then(toml_edit::Item::as_table_like_mut);
    let item = if let Some(t) = deps { t.get_mut(name) } else { None };
    match item {
        Some(toml_edit::Item::Table(t)) => {
            let p = t.get_mut("path").and_then(toml_edit::Item::as_value_mut);
            if let Some(p @ toml_edit::Value::String(_)) = p { *p = toml_edit::Value::from(new_path); }
        },
        Some(toml_edit::Item::Value(toml_edit::Value::InlineTable(t))) => {
            let p = t.get_mut("path");
            if let Some(p @ toml_edit::Value::String(_)) = p { *p = toml_edit::Value::from(new_path); }
        },
        _ => {},
    }
}

/// Relies on `toml_edit::Table::get` and `Item::as_str`: the `package`
/// table's `name` string, if present.
#[verifier::external_body]
pub(crate) fn doc_package_name(doc: &toml_edit::DocumentMut) -> (r: Option<String>)
    ensures
        r is Some <==> doc_model(*doc).1 is Some,
        r is Some ==> r->0@ == doc_model(*doc).1->0,
{
    let v = doc.get("package")?.get("name")?.as_str()?;
    Some(v.to_string())
}

/// Relies on `toml_edit::Table::get` and `Item::as_str`: the `package`
/// table's `version` string, if present.
#[verifier::external_body]
pub(crate) fn doc_package_version(doc: &toml_edit::DocumentMut) -> (r: Option<String>)
    ensures
        r is Some <==> doc_model(*doc).2 is Some,
        r is Some ==> r->0@ == doc_model(*doc).2->0,
{
    let v = doc.get("package")?.get("version")?.as_str()?;
    Some(v.to_string())
}

/// Parse a manifest's text and read its `package` table's `name` and
/// `version` strings.
pub fn package_name_version(text: &String) -> (r: Option<(Option<String>, Option<String>)>)
    ensures
        r is Some <==> toml_doc_model(text@) is Some,
        r is Some ==> {
            &&& ((r->0).0 is Some <==> (toml_doc_model(text@)->0).1 is Some)
            &&& ((r->0).0 is Some ==> ((r->0).0)->0@ == (toml_doc_model(text@)->0).1->0)
            &&& ((r->0).1 is Some <==> (toml_doc_model(text@)->0).2 is Some)
            &&& ((r->0).1 is Some ==> ((r->0).1)->0@ == (toml_doc_model(text@)->0).2->0)
        },
{
    match parse_toml(text.as_str()) {
        None => None,
        Some(doc) => Some((doc_package_name(&doc), doc_package_version(&doc))),
    }
}

/// Relies on `toml_edit::DocumentMut`'s `Display`: prints the document,
/// formatting preserved; the printed text parses back to the same model.
#[verifier::external_body]
fn doc_to_text(doc: &toml_edit::DocumentMut) -> (r: String)
    ensures
        toml_doc_model(r@) == Some(doc_model(*doc)),
{
    doc.to_string()
}

/// In a table with distinct names, looking an entry's own name up finds
/// that entry.
proof fn lemma_dep_path_of_unique(deps: Seq<DepEntryModel>, i: int)
    requires
        dep_names(deps).no_duplicates(),
        0 <= i < deps.len(),
    ensures
        dep_path_of(deps, deps[i].0) == deps[i].1,
    decreases deps.len(),
{
    if i == 0 {
    } else {
        assert(dep_names(deps)[0] == deps[0].0);
        assert(dep_names(deps)[i] == deps[i].0);
        assert(deps[0].0 != deps[i].0);
        let tail = deps.subrange(1, deps.len() as int);
        assert(dep_names(tail) =~= dep_names(deps).subrange(1, deps.len() as int));
        lemma_dep_path_of_unique(tail, i - 1);
        assert(tail[i - 1] == deps[i]);
    }
}

/// Parse a manifest's dependency table into the model the engine works
/// on.  Fails with a parse error naming `at_path` exactly when the text
/// is not valid TOML.
#[verifier::loop_isolation(false)]
pub fn parse_manifest(text: &String, at_path: &String) -> (r: Result<Manifest, VendorError>)
    ensures
        match r {
            Ok(m) => toml_doc_model(text@) is Some && man_model(m) == (toml_doc_model(
                text@,
            )->0).0,
            Err(e) => e is ManifestParse && error_path(e) == at_path@ && toml_doc_model(
                text@,
            ) is None,
        },
{
    let doc = match parse_toml(text.as_str()) {
        None => {
            return Err(VendorError::ManifestParse { path: at_path.clone() });
        },
        Some(doc) => doc,
    };
    let ghost deps0 = doc_model(doc).0;
    let names = doc_dep_names(&doc);
    proof {
        assert(names.deep_view().len() == dep_names(deps0).len());
    }
    let mut deps: Vec<Dep> = Vec::new();
    let mut i: usize = 0;
    while i < names.len()
        invariant
            i <= names.len(),
            names@.len() == deps0.len(),
            names.deep_view() == dep_names(deps0),
            dep_names(deps0).no_duplicates(),
            deps@.len() == i,
            forall|k: int|
                0 <= k < i ==> crate::manifest::dep_model(#[trigger] deps@[k]) == deps0[k],
        decreases names.len() - i,
    {
        proof {
            assert(names.deep_view()[i as int] == names@[i as int]@);
            assert(deps0[i as int].0 == names@[i as int]@);
            lemma_dep_path_of_unique(deps0, i as int);
        }
        let name = names[i].clone();
        proof {
            assert(name@ == deps0[i as int].0);
            assert(dep_path_of(deps0, name@) == deps0[i as int].1);
        }
        let source = match doc_dep_path(&doc, name.as_str()) {
            None => DepSource::Registry,
            Some((inline, path)) => {
                proof {
                    let x = (dep_path_of(deps0, name@)->0);
                    assert(x.0 == inline && x.1 == path@);
                    assert(x =~= (inline, path@));
                }
                if inline {
                    DepSource::PathInline { path }
                } else {
                    DepSource::PathTable { path }
                }
            },
        };
        proof {
            assert(crate::manifest::source_model(source) == deps0[i as int].1);
        }
        let d = Dep { name, source };
        proof {
            assert(crate::manifest::dep_model(d) == deps0[i as int]);
        }
        deps.push(d);
        i = i + 1;
    }
    let m = Manifest { deps };
    proof {
        assert(man_model(m) =~= deps0);
    }
    Ok(m)
}

/// The table with every entry before `i` rewritten and the rest as they
/// came: the state after `i` passes of the rewriting loop.
pub open spec fn rewrite_upto(deps: Seq<DepEntryModel>, i: int) -> Seq<DepEntryModel> {
    Seq::new(deps.len(), |k: int| if k < i {
        rewrite_entry(deps[k])
    } else {
        deps[k]
    })
}

/// Rewrite a manifest's text: every dependency entry that carries a local
/// path has it replaced by `../` plus the entry's name; everything else
/// in the text — other entries, other tables, formatting — is preserved
/// as the document model records it.  Fails with a parse error naming
/// `at_path` exactly when the text is not valid TOML.
#[verifier::loop_isolation(false)]
pub fn rewrite_manifest_text(text: &String, at_path: &String) -> (r: Result<String, VendorError>)
    ensures
        match r {
            Ok(out) => {
                &&& toml_doc_model(text@) is Some
                &&& toml_doc_model(out@) is Some
                &&& (toml_doc_model(out@)->0).0 == rewrite_deps((toml_doc_model(text@)->0).0)
                &&& (toml_doc_model(out@)->0).1 == (toml_doc_model(text@)->0).1
                &&& (toml_doc_model(out@)->0).2 == (toml_doc_model(text@)->0).2
            },
            Err(e) => e is ManifestParse && error_path(e) == at_path@ && toml_doc_model(
                text@,
            ) is None,
        },
{
    let mut doc = match parse_toml(text.as_str()) {
        None => {
            return Err(VendorError::ManifestParse { path: at_path.clone() });
        },
        Some(doc) => doc,
    };
    let ghost deps0 = doc_model(doc).0;
    let ghost pkg_name = doc_model(doc).1;
    let ghost pkg_version = doc_model(doc).2;
    let names = doc_dep_names(&doc);
    let mut i: usize = 0;
    proof {
        assert(names.deep_view().len() == dep_names(deps0).len());
        assert(rewrite_upto(deps0, 0) =~= deps0);
    }
    while i < names.len()
        invariant
            i <= names.len(),
            names@.len() == deps0.len(),
            names.deep_view() == dep_names(deps0),
            dep_names(deps0).no_duplicates(),
            doc_model(doc).0 == rewrite_upto(deps0, i as int),
            doc_model(doc).1 == pkg_name,
            doc_model(doc).2 == pkg_version,
        decreases names.len() - i,
    {
        proof {
            assert(names.deep_view()[i as int] == names@[i as int]@);
            assert(deps0[i as int].0 == names@[i as int]@);
            lemma_dep_path_of_unique(deps0, i as int);
            lemma_rewrite_upto_names(deps0, i as int);
            lemma_dep_path_of_unique(rewrite_upto(deps0, i as int), i as int);
        }
        let name = names[i].clone();
        match doc_dep_path(&doc, name.as_str()) {
            None => {
                proof {
                    assert(rewrite_upto(deps0, i as int)[i as int] == deps0[i as int]);
                    assert(deps0[i as int].1 is None);
                    assert(rewrite_entry(deps0[i as int]) == deps0[i as int]);
                    assert(rewrite_upto(deps0, i + 1) =~= rewrite_upto(deps0, i as int));
                }
            },
            Some((_inline, _path)) => {
                let new_path = staged_rel_path(&name);
                doc_set_dep_path(&mut doc, name.as_str(), new_path.as_str());
                proof {
                    lemma_set_path_rewrite_step(deps0, i as int);
                }
            },
        }
        i = i + 1;
    }
    proof {
        assert(rewrite_upto(deps0, names@.len() as int) =~= rewrite_deps(deps0));
    }
    Ok(doc_to_text(&doc))
}

/// Rewriting entries keeps their names.
proof fn lemma_rewrite_upto_names(deps: Seq<DepEntryModel>, i: int)
    ensures
        dep_names(rewrite_upto(deps, i)) =~= dep_names(deps),
{
}

/// One pass of the rewriting loop: setting the path of the entry at `i`
/// — local, with all names distinct — turns the table rewritten up to
/// `i` into the table rewritten up to `i + 1`.
proof fn lemma_set_path_rewrite_step(deps: Seq<DepEntryModel>, i: int)
    requires
        dep_names(deps).no_duplicates(),
        0 <= i < deps.len(),
        deps[i].1 is Some,
    ensures
        set_path_in(rewrite_upto(deps, i), deps[i].0, staged_path(deps[i].0)) =~= rewrite_upto(
            deps,
            i + 1,
        ),
{
    let cur = rewrite_upto(deps, i);
    assert forall|k: int| 0 <= k < deps.len() implies set_path_in(
        cur,
        deps[i].0,
        staged_path(deps[i].0),
    )[k] == rewrite_upto(deps, i + 1)[k] by {
        assert(dep_names(deps)[k] == deps[k].0);
        assert(dep_names(deps)[i] == deps[i].0);
        if k != i {
            assert(deps[k].0 != deps[i].0);
            assert(cur[k].0 == deps[k].0);
        } else {
            assert(cur[i] == deps[i]);
        }
    }
}

} // verus!
