//! The version report: one line per recognised project descriptor file.
//!
//! The caller walks the file tree and reads each candidate file; which
//! files are recognised, what is extracted from each, and the exact line
//! reported are decided here.  Rust manifests are read through the same
//! document model as the vendoring engine; npm manifests through
//! `serde_json`; Go modules and Android build scripts through regular
//! expressions, behind named results.

use vstd::prelude::*;

use crate::toml_io::package_name_version;
use crate::toml_io::toml_doc_model;

verus! {

/// What the Go-module expression — `module`, whitespace, the module
/// name, whitespace, `go`, whitespace, the version — captures from a
/// text, if it occurs.  A function of the text alone.
pub uninterp spec fn go_mod_info(text: Seq<char>) -> Option<(Seq<char>, Seq<char>)>;

/// Relies on `regex::Regex::captures` with the Go-module expression:
/// the captured module name and version.
#[verifier::external_body]
fn go_mod_captures(text: &str) -> (r: Option<(String, String)>)
    ensures
        r is Some <==> go_mod_info(text@) is Some,
        r is Some ==> (r->0).0@ == (go_mod_info(text@)->0).0 && (r->0).1@ == (go_mod_info(
            text@,
        )->0).1,
{
    let re = regex::Regex::new(r"module\s+(?P<name>\S+)\s+go\s+(?P<version>\S+)").ok()?;
    let caps = re.captures(text)?;
    Some((caps["name"].to_string(), caps["version"].to_string()))
}

/// What the Android expression — `applicationId`, whitespace, a quoted
/// application identifier — captures from a text, if it occurs.  A
/// function of the text alone.
pub uninterp spec fn gradle_application_id(text: Seq<char>) -> Option<Seq<char>>;

/// Relies on `regex::Regex::captures` with the Android expression: the
/// captured application identifier.
#[verifier::external_body]
fn gradle_captures(text: &str) -> (r: Option<String>)
    ensures
        r is Some <==> gradle_application_id(text@) is Some,
        r is Some ==> r->0@ == gradle_application_id(text@)->0,
{
    let re = regex::Regex::new(r#"applicationId\s+['"](?P<name>[^"]+)['"]"#).ok()?;
    let caps = re.captures(text)?;
    Some(caps["name"].to_string())
}

/// What an npm manifest's top-level `name` and `version` strings are,
/// when the text parses as a JSON document.  A function of the text
/// alone.
pub uninterp spec fn json_package_info(text: Seq<char>) -> Option<
    (Option<Seq<char>>, Option<Seq<char>>),
>;

/// Relies on `serde_json::from_str::<serde_json::Value>`, `Value`'s
/// indexing and `Value::as_str`: the `name` and `version` strings of a
/// JSON package manifest.
#[verifier::external_body]
fn npm_name_version(text: &str) -> (r: Option<(Option<String>, Option<String>)>)
    ensures
        r is Some <==> json_package_info(text@) is Some,
        r is Some ==> {
            &&& ((r->0).0 is Some <==> (json_package_info(text@)->0).0 is Some)
            &&& ((r->0).0 is Some ==> ((r->0).0)->0@ == (json_package_info(text@)->0).0->0)
            &&& ((r->0).1 is Some <==> (json_package_info(text@)->0).1 is Some)
            &&& ((r->0).1 is Some ==> ((r->0).1)->0@ == (json_package_info(text@)->0).1->0)
        },
{
    let json: serde_json::Value = serde_json::from_str(text).ok()?;
    Some((
        json["name"].as_str().map(|s| s.to_string()),
        json["version"].as_str().map(|s| s.to_string()),
    ))
}

/// The line reported for a Rust project.
pub open spec fn rust_line(name: Seq<char>, version: Seq<char>) -> Seq<char> {
    "Rust Project: "@ + name + ", Version: "@ + version
}

/// The line reported for an npm project.
pub open spec fn npm_line(name: Seq<char>, version: Seq<char>) -> Seq<char> {
    "NPM Project: "@ + name + ", Version: "@ + version
}

/// The line reported for a Go project.
pub open spec fn go_line(name: Seq<char>, version: Seq<char>) -> Seq<char> {
    "Go Project: "@ + name + ", Version: "@ + version
}

/// The line reported for an iOS project.
pub open spec fn ios_line(path: Seq<char>) -> Seq<char> {
    "iOS Project: Located at "@ + path
}

/// The line reported for an Android project.
pub open spec fn android_line(name: Seq<char>, path: Seq<char>) -> Seq<char> {
    "Android Project: "@ + name + ", Located at "@ + path
}

/// A non-empty suffix starts at the character where it begins.
proof fn lemma_suffix_first_char(s: Seq<char>, suf: Seq<char>)
    requires
        has_suffix(s, suf),
        suf.len() > 0,
    ensures
        s[s.len() - suf.len()] == suf[0],
{
    assert(s.subrange(s.len() - suf.len(), s.len() as int)[0] == s[s.len() - suf.len()]);
}

/// Whether `s` ends with `suffix`.
pub open spec fn has_suffix(s: Seq<char>, suffix: Seq<char>) -> bool {
    s.len() >= suffix.len() && s.subrange(s.len() - suffix.len(), s.len() as int) == suffix
}

/// Whether `s` ends with `suffix`.
fn ends_with_str(s: &String, suffix: &str) -> (r: bool)
    ensures
        r == has_suffix(s@, suffix@),
{
    let n: usize = s.as_str().unicode_len();
    let m: usize = suffix.unicode_len();
    if n < m {
        return false;
    }
    let mut i: usize = 0;
    while i < m
        invariant
            i <= m,
            m <= n,
            n == s@.len(),
            m == suffix@.len(),
            forall|j: int| 0 <= j < i ==> s@[n - m + j] == suffix@[j],
        decreases m - i,
    {
        if s.as_str().get_char(n - m + i) != suffix.get_char(i) {
            proof {
                assert(s@.subrange(n - m, n as int)[i as int] == s@[n - m + i]);
            }
            return false;
        }
        i = i + 1;
    }
    proof {
        assert(s@.subrange(n - m, n as int) =~= suffix@);
    }
    true
}

/// Glue two pieces around a literal, and one more piece.
fn compose_line(head: &str, a: &String, mid: &str, b: &String) -> (r: String)
    ensures
        r@ == head@ + a@ + mid@ + b@,
{
    let mut r = String::from_str(head);
    r.append(a.as_str());
    r.append(mid);
    r.append(b.as_str());
    r
}

/// The version-report line for one file, given its name, its path and
/// its contents:
/// - `Cargo.toml` with a `package` name and version reports a Rust
///   project;
/// - `package.json` with a `name` and `version` reports an npm project;
/// - `go.mod` matching the Go-module expression reports a Go project;
/// - a name ending in `.xcodeproj` or `.xcworkspace` reports an iOS
///   project at its path;
/// - `build.gradle` matching the Android expression reports an Android
///   project at its path;
/// - anything else reports nothing.
pub fn project_version_line(file_name: &String, path: &String, contents: &String) -> (r: Option<
    String,
>)
    ensures
        file_name@ == "Cargo.toml"@ ==> match r {
            Some(line) => {
                &&& toml_doc_model(contents@) is Some
                &&& (toml_doc_model(contents@)->0).1 is Some
                &&& (toml_doc_model(contents@)->0).2 is Some
                &&& line@ == rust_line(
                    (toml_doc_model(contents@)->0).1->0,
                    (toml_doc_model(contents@)->0).2->0,
                )
            },
            None => toml_doc_model(contents@) is None || (toml_doc_model(contents@)->0).1 is None
                || (toml_doc_model(contents@)->0).2 is None,
        },
        file_name@ == "package.json"@ ==> match r {
            Some(line) => {
                &&& json_package_info(contents@) is Some
                &&& (json_package_info(contents@)->0).0 is Some
                &&& (json_package_info(contents@)->0).1 is Some
                &&& line@ == npm_line(
                    (json_package_info(contents@)->0).0->0,
                    (json_package_info(contents@)->0).1->0,
                )
            },
            None => json_package_info(contents@) is None || (json_package_info(
                contents@,
            )->0).0 is None || (json_package_info(contents@)->0).1 is None,
        },
        file_name@ == "go.mod"@ ==> match r {
            Some(line) => go_mod_info(contents@) is Some && line@ == go_line(
                (go_mod_info(contents@)->0).0,
                (go_mod_info(contents@)->0).1,
            ),
            None => go_mod_info(contents@) is None,
        },
        (file_name@ != "Cargo.toml"@ && file_name@ != "package.json"@ && file_name@
            != "go.mod"@ && (has_suffix(file_name@, ".xcodeproj"@) || has_suffix(
            file_name@,
            ".xcworkspace"@,
        ))) ==> r is Some && r->0@ == ios_line(path@),
        file_name@ == "build.gradle"@ ==> match r {
            Some(line) => gradle_application_id(contents@) is Some && line@ == android_line(
                gradle_application_id(contents@)->0,
                path@,
            ),
            None => gradle_application_id(contents@) is None,
        },
        (file_name@ != "Cargo.toml"@ && file_name@ != "package.json"@ && file_name@
            != "go.mod"@ && file_name@ != "build.gradle"@ && !has_suffix(
            file_name@,
            ".xcodeproj"@,
        ) && !has_suffix(file_name@, ".xcworkspace"@)) ==> r is None,
{
    proof {
        reveal_strlit("Cargo.toml");
        reveal_strlit("package.json");
        reveal_strlit("go.mod");
        reveal_strlit("build.gradle");
        reveal_strlit(".xcodeproj");
        reveal_strlit(".xcworkspace");
        assert("Cargo.toml"@.len() == 10);
        assert("package.json"@.len() == 12);
        assert("go.mod"@.len() == 6);
        assert("build.gradle"@.len() == 12);
        assert(".xcodeproj"@.len() == 10);
        assert(".xcworkspace"@.len() == 12);
        assert("package.json"@[0] == 'p');
        assert("build.gradle"@[0] == 'b');
        assert(!has_suffix("build.gradle"@, ".xcodeproj"@)) by {
            if has_suffix("build.gradle"@, ".xcodeproj"@) {
                lemma_suffix_first_char("build.gradle"@, ".xcodeproj"@);
                assert("build.gradle"@[2] == 'i');
                assert(".xcodeproj"@[0] == '.');
            }
        }
        assert(!has_suffix("build.gradle"@, ".xcworkspace"@)) by {
            if has_suffix("build.gradle"@, ".xcworkspace"@) {
                lemma_suffix_first_char("build.gradle"@, ".xcworkspace"@);
                assert("build.gradle"@[0] == 'b');
                assert(".xcworkspace"@[0] == '.');
            }
        }
    }
    let cargo: String = String::from_str("Cargo.toml");
    let npm: String = String::from_str("package.json");
    let gomod: String = String::from_str("go.mod");
    let gradle: String = String::from_str("build.gradle");
    if *file_name == cargo {
        match package_name_version(contents) {
            Some((Some(name), Some(version))) => Some(
                compose_line("Rust Project: ", &name, ", Version: ", &version),
            ),
            _ => None,
        }
    } else if *file_name == npm {
        match npm_name_version(contents.as_str()) {
            Some((Some(name), Some(version))) => Some(
                compose_line("NPM Project: ", &name, ", Version: ", &version),
            ),
            _ => None,
        }
    } else if *file_name == gomod {
        match go_mod_captures(contents.as_str()) {
            Some((name, version)) => Some(
                compose_line("Go Project: ", &name, ", Version: ", &version),
            ),
            None => None,
        }
    } else if ends_with_str(file_name, ".xcodeproj") || ends_with_str(file_name, ".xcworkspace") {
        let mut line = String::from_str("iOS Project: Located at ");
        line.append(path.as_str());
        Some(line)
    } else if *file_name == gradle {
        match gradle_captures(contents.as_str()) {
            Some(name) => Some(
                compose_line("Android Project: ", &name, ", Located at ", path),
            ),
            None => None,
        }
    } else {
        None
    }
}

/// A directory entry that the version-report walk skips: build outputs
/// and installed dependencies.
pub fn is_ignored(entry_name: &String) -> (r: bool)
    ensures
        r == (entry_name@ == "target"@ || entry_name@ == "node_modules"@),
{
    let target: String = String::from_str("target");
    let node_modules: String = String::from_str("node_modules");
    *entry_name == target || *entry_name == node_modules
}

} // verus!
