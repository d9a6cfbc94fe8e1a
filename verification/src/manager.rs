//! Maintaining an existing project: deciding what kind of project the
//! working directory holds.  The update and publish flows themselves are
//! sequences of git and registry calls driven by the caller.

use vstd::prelude::*;

verus! {

/// The kinds of project the manager recognises.
#[derive(Debug, Clone, Copy, PartialEq, Eq)]
pub enum ProjectKind {
    Node,
    Go,
    Rust,
}

/// Why the manager refused the working directory.
#[derive(Debug, Clone, Copy, PartialEq, Eq)]
pub enum ManagerError {
    /// None of the recognised project descriptor files is present.
    UnsupportedProjectType,
}

/// The project maintenance flows.
#[derive(Debug)]
pub struct Manager;

impl Manager {
    /// What kind of project a directory holds, judged by which
    /// descriptor files exist: `package.json` wins over `go.mod`, which
    /// wins over `Cargo.toml`; none of the three is an error.
    pub fn determine_project_type(
        has_package_json: bool,
        has_go_mod: bool,
        has_cargo_toml: bool,
    ) -> (r: Result<ProjectKind, ManagerError>)
        ensures
            has_package_json ==> r == Ok::<ProjectKind, ManagerError>(ProjectKind::Node),
            !has_package_json && has_go_mod ==> r == Ok::<ProjectKind, ManagerError>(
                ProjectKind::Go,
            ),
            !has_package_json && !has_go_mod && has_cargo_toml ==> r == Ok::<
                ProjectKind,
                ManagerError,
            >(ProjectKind::Rust),
            !has_package_json && !has_go_mod && !has_cargo_toml ==> r == Err::<
                ProjectKind,
                ManagerError,
            >(ManagerError::UnsupportedProjectType),
    {
        if has_package_json {
            Ok(ProjectKind::Node)
        } else if has_go_mod {
            Ok(ProjectKind::Go)
        } else if has_cargo_toml {
            Ok(ProjectKind::Rust)
        } else {
            Err(ManagerError::UnsupportedProjectType)
        }
    }

    /// Whether publishing is possible: only a directory with a
    /// `Cargo.toml` can be published to the crate registry.
    pub fn can_publish(has_cargo_toml: bool) -> (r: Result<(), ManagerError>)
        ensures
            r is Ok <==> has_cargo_toml,
            r is Err ==> r == Err::<(), ManagerError>(ManagerError::UnsupportedProjectType),
    {
        if has_cargo_toml {
            Ok(())
        } else {
            Err(ManagerError::UnsupportedProjectType)
        }
    }
}

} // verus!
