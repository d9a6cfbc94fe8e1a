//! Driving the discovery loop over in-memory manifests, vendoring the
//! finished snapshot, and checking the staging plan.

use cnctd::discovery::Discovery;
use cnctd::manifest::Manifest;
use cnctd::plan::{build_plan, staging_dir, Action};
use cnctd::vendor::{Staged, StagedEntry, VendorError};

/// The manifests of a small workspace, by directory.
fn manifest_text(dir: &str) -> Option<&'static str> {
    match dir {
        "/ws/root" => Some(
            "[package]\nname = \"root\"\nversion = \"0.1.0\"\n\n[dependencies]\ndep_a = { path = \"../dep_a\" }\n",
        ),
        "/ws/dep_a" => Some(
            "[package]\nname = \"dep_a\"\nversion = \"0.1.0\"\n\n[dependencies.dep_b]\npath = \"../dep_b\"\n",
        ),
        "/ws/dep_b" => Some("[package]\nname = \"dep_b\"\nversion = \"0.1.0\"\n"),
        _ => None,
    }
}

/// Run a whole discovery against the in-memory workspace.
fn discover(root: &str) -> Result<Discovery, VendorError> {
    let mut d = Discovery::new(&String::from(root));
    while let Some(dir) = d.next_dir() {
        let text = manifest_text(dir.as_str())
            .unwrap_or_else(|| panic!("no manifest at {}", dir));
        d.supply(&String::from(text))?;
    }
    Ok(d)
}

#[test]
fn discovery_collects_the_reachable_tree() {
    let d = discover("/ws/root").unwrap();
    assert!(d.finished());
    let dirs: Vec<&str> = d.tree.dirs.iter().map(|f| f.path.as_str()).collect();
    assert_eq!(dirs, vec!["/ws/root", "/ws/dep_a", "/ws/dep_b"]);
}

#[test]
fn finished_discovery_vendors_without_failing() {
    let d = discover("/ws/root").unwrap();
    let staged: Staged = d.vendor();
    assert_eq!(staged.entries.len(), 2);
    assert_eq!(staged.entries[0].name, "dep_a");
    assert_eq!(staged.entries[1].name, "dep_b");
}

#[test]
fn discovery_reports_a_parse_error() {
    let mut d = Discovery::new(&String::from("/bad"));
    assert_eq!(d.next_dir().as_deref(), Some("/bad"));
    let err = d.supply(&String::from("this is [not toml")).unwrap_err();
    assert_eq!(err, VendorError::ManifestParse { path: String::from("/bad") });
}

#[test]
fn plan_stages_everything_under_the_staging_directory() {
    let d = discover("/ws/root").unwrap();
    let staged = d.vendor();
    let root = String::from("/ws/root");
    let plan = build_plan(&d.tree, &root, &staged).unwrap();

    let staging = staging_dir(&root);
    assert_eq!(staging, "/ws/root/temp");
    assert_eq!(plan.len(), 3 + 2 * staged.entries.len());

    // the plan starts by destroying and recreating the staging area
    assert_eq!(plan[0], Action::ClearDir { path: staging.clone() });
    assert_eq!(plan[1], Action::MakeDir { path: staging.clone() });

    // every action lands inside the staging directory
    for a in plan.iter() {
        let target = match a {
            Action::ClearDir { path } => path,
            Action::MakeDir { path } => path,
            Action::CopyDir { dst, .. } => dst,
            Action::WriteFile { path, .. } => path,
        };
        assert!(target.starts_with(staging.as_str()), "target {} escapes staging", target);
    }

    // the root manifest is written rewritten, formatting preserved
    match &plan[2] {
        Action::WriteFile { path, contents } => {
            assert_eq!(path, "/ws/root/temp/Cargo.toml");
            assert!(contents.contains(r#"dep_a = { path = "../dep_a" }"#));
            assert!(contents.contains("name = \"root\""));
        },
        other => panic!("expected a manifest write, got {:?}", other),
    }

    // each package is copied before its manifest is rewritten over it
    match (&plan[3], &plan[4]) {
        (Action::CopyDir { src, dst }, Action::WriteFile { path, contents }) => {
            assert_eq!(src, "/ws/dep_a");
            assert_eq!(dst, "/ws/root/temp/dep_a");
            assert_eq!(path, "/ws/root/temp/dep_a/Cargo.toml");
            assert!(contents.contains("path = \"../dep_b\""));
        },
        other => panic!("unexpected plan shape: {:?}", other),
    }
}

#[test]
fn two_plans_over_one_tree_are_identical() {
    let d = discover("/ws/root").unwrap();
    let root = String::from("/ws/root");
    let p1 = build_plan(&d.tree, &root, &d.vendor()).unwrap();
    let p2 = build_plan(&d.tree, &root, &d.vendor()).unwrap();
    assert_eq!(p1, p2);
}

#[test]
fn plan_fails_on_a_directory_the_snapshot_lacks() {
    let d = discover("/ws/root").unwrap();
    let staged = Staged {
        root_manifest: Manifest { deps: vec![] },
        entries: vec![StagedEntry {
            name: String::from("ghost"),
            orig_dir: String::from("/ws/ghost"),
            manifest: Manifest { deps: vec![] },
        }],
    };
    let err = build_plan(&d.tree, &String::from("/ws/root"), &staged).unwrap_err();
    assert_eq!(err, VendorError::ManifestRead { path: String::from("/ws/ghost") });
}
