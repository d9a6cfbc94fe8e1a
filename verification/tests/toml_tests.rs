//! Manifest-text parsing and rewriting, through the real document
//! editor.

use cnctd::manifest::{DepSource, Manifest};
use cnctd::toml_io::{package_name_version, parse_manifest, rewrite_manifest_text};
use cnctd::vendor::VendorError;

const SAMPLE: &str = r#"[package]
name = "demo"
version = "0.3.1"

# the dependencies, with assorted shapes
[dependencies]
serde = "1.0"
dep_a = { path = "../../libs/dep_a" }

[dependencies.dep_b]
path = "../vendor/dep_b"
version = "0.1.0"
"#;

#[test]
fn parse_reads_all_shapes() {
    let m: Manifest =
        parse_manifest(&String::from(SAMPLE), &String::from("/src/demo")).unwrap();
    assert_eq!(m.deps.len(), 3);
    assert_eq!(m.deps[0].name, "serde");
    assert_eq!(m.deps[0].source, DepSource::Registry);
    assert_eq!(m.deps[1].name, "dep_a");
    assert_eq!(
        m.deps[1].source,
        DepSource::PathInline { path: String::from("../../libs/dep_a") }
    );
    assert_eq!(m.deps[2].name, "dep_b");
    assert_eq!(
        m.deps[2].source,
        DepSource::PathTable { path: String::from("../vendor/dep_b") }
    );
}

#[test]
fn parse_error_names_the_manifest() {
    let err =
        parse_manifest(&String::from("not [ valid"), &String::from("/src/broken")).unwrap_err();
    assert_eq!(err, VendorError::ManifestParse { path: String::from("/src/broken") });
}

#[test]
fn rewrite_redirects_local_paths_only() {
    let out =
        rewrite_manifest_text(&String::from(SAMPLE), &String::from("/src/demo")).unwrap();
    // the rewritten text is not the input handed back
    assert_ne!(out, SAMPLE);
    // local paths now point at staged siblings
    assert!(out.contains(r#"dep_a = { path = "../dep_a" }"#));
    assert!(out.contains(r#"path = "../dep_b""#));
    assert!(!out.contains("libs/dep_a"));
    assert!(!out.contains("vendor/dep_b"));
    // the registry entry, the package table and the comment survive
    assert!(out.contains(r#"serde = "1.0""#));
    assert!(out.contains(r#"name = "demo""#));
    assert!(out.contains("# the dependencies, with assorted shapes"));
    // parsing the output agrees with the rewritten model
    let m = parse_manifest(&out, &String::from("/src/demo")).unwrap();
    assert_eq!(m.deps[1].source, DepSource::PathInline { path: String::from("../dep_a") });
    assert_eq!(m.deps[2].source, DepSource::PathTable { path: String::from("../dep_b") });
}

#[test]
fn rewrite_moves_a_path_that_was_elsewhere() {
    let text = String::from(
        "[dependencies]\nutil = { path = \"../../libs/util\", version = \"0.2\" }\n",
    );
    let out = rewrite_manifest_text(&text, &String::from("/src/demo")).unwrap();
    assert!(out.contains(r#"path = "../util""#));
    assert!(!out.contains("libs/util"));
    // the other keys of the entry survive
    assert!(out.contains(r#"version = "0.2""#));
}

#[test]
fn rewrite_without_dependencies_is_identity_shaped() {
    let text = String::from("[package]\nname = \"leaf\"\nversion = \"1.0.0\"\n");
    let out = rewrite_manifest_text(&text, &String::from("/src/leaf")).unwrap();
    assert_eq!(out, text.as_str());
}

#[test]
fn rewrite_error_names_the_manifest() {
    let err = rewrite_manifest_text(&String::from("= nonsense"), &String::from("/x"))
        .unwrap_err();
    assert_eq!(err, VendorError::ManifestParse { path: String::from("/x") });
}

#[test]
fn package_fields_are_read() {
    let r = package_name_version(&String::from(SAMPLE)).unwrap();
    assert_eq!(r.0.as_deref(), Some("demo"));
    assert_eq!(r.1.as_deref(), Some("0.3.1"));

    let r2 = package_name_version(&String::from("[dependencies]\n")).unwrap();
    assert_eq!(r2.0, None);
    assert_eq!(r2.1, None);

    assert!(package_name_version(&String::from("also [ not valid")).is_none());
}
