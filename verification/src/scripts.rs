//! The maintenance scripts menu.  Only one script exists: vendoring the
//! local dependencies of the project in the working directory.

use vstd::prelude::*;

use crate::vendor::FsTree;
use crate::vendor::LocalDependencies;
use crate::vendor::Staged;
use crate::vendor::VendorError;
use crate::vendor::error_path;
use crate::vendor::init_stack;
use crate::vendor::spec_run;
use crate::vendor::vendor_ok;

verus! {

/// The maintenance scripts.
#[derive(Debug)]
pub struct Scripts;

impl Scripts {
    /// Run the local-dependency vendoring script over a snapshot of the
    /// source tree rooted at `root_dir`.
    pub fn local_dependencies(tree: &FsTree, root_dir: &String) -> (r: Result<
        Staged,
        VendorError,
    >)
        ensures
            match r {
                Ok(st) => vendor_ok(tree.dirs@, root_dir@, st),
                Err(e) => e is ManifestRead && spec_run(
                    tree.dirs@,
                    init_stack(root_dir@),
                    Seq::empty(),
                    Seq::empty(),
                ) == Err::<Seq<(Seq<char>, Seq<char>)>, Seq<char>>(error_path(e)),
            },
    {
        LocalDependencies::vendor(tree, root_dir)
    }
}

} // verus!
