//! Command dispatch, the flag-style configuration options, the project
//! kind decision, and the version-report lines.

use cnctd::manager::{Manager, ManagerError, ProjectKind};
use cnctd::project::{is_ignored, project_version_line};
use cnctd::routes::{
    route_command, route_config_command, Commands, ConfigAction, ConfigOptions, RouteAction,
};

#[test]
fn commands_map_to_their_actions() {
    assert_eq!(route_command(None), RouteAction::RunScaffold);
    assert_eq!(route_command(Some(Commands::New {})), RouteAction::RunScaffold);
    assert_eq!(route_command(Some(Commands::Config {})), RouteAction::LaunchConfigSetup);
    assert_eq!(
        route_command(Some(Commands::Update { m: Some(String::from("msg")) })),
        RouteAction::Update { message: Some(String::from("msg")) }
    );
    assert_eq!(
        route_command(Some(Commands::S { name: String::from("build") })),
        RouteAction::ExecuteShortcut { name: String::from("build") }
    );
    assert_eq!(
        route_command(Some(Commands::Versions { d: None })),
        RouteAction::Versions { directory: None }
    );
    assert_eq!(route_command(Some(Commands::Repo {})), RouteAction::Repo);
    assert_eq!(route_command(Some(Commands::Workspace {})), RouteAction::Workspace);
    assert_eq!(route_command(Some(Commands::Submodule {})), RouteAction::Submodule);
    assert_eq!(route_command(Some(Commands::Scripts {})), RouteAction::Scripts);
}

#[test]
fn bump_defaults_to_patch() {
    assert_eq!(
        route_command(Some(Commands::Bump { version_part: Some(String::from("minor")) })),
        RouteAction::Bump { version_part: String::from("minor") }
    );
    assert_eq!(
        route_command(Some(Commands::Bump { version_part: None })),
        RouteAction::Bump { version_part: String::from("patch") }
    );
}

#[test]
fn config_flags_become_updates_in_flag_order() {
    let actions = route_config_command(ConfigOptions {
        github_token: Some(String::from("SECRET-REDACTED")),
        iphone: Some(String::from("iphone-12")),
        s1: None,
        s2: Some(String::from("cargo test")),
        s3: None,
    });
    assert_eq!(
        actions,
        vec![
            ConfigAction::SetGitToken { token: String::from("SECRET-REDACTED") },
            // the iphone flag goes through the git-token setter too
            ConfigAction::SetGitToken { token: String::from("iphone-12") },
            ConfigAction::SetShortcut { slot: 2, command: String::from("cargo test") },
        ]
    );
    assert!(route_config_command(ConfigOptions {
        github_token: None,
        iphone: None,
        s1: None,
        s2: None,
        s3: None,
    })
    .is_empty());
}

#[test]
fn project_kind_priority() {
    assert_eq!(Manager::determine_project_type(true, true, true), Ok(ProjectKind::Node));
    assert_eq!(Manager::determine_project_type(false, true, true), Ok(ProjectKind::Go));
    assert_eq!(Manager::determine_project_type(false, false, true), Ok(ProjectKind::Rust));
    assert_eq!(
        Manager::determine_project_type(false, false, false),
        Err(ManagerError::UnsupportedProjectType)
    );
    assert_eq!(Manager::can_publish(true), Ok(()));
    assert_eq!(Manager::can_publish(false), Err(ManagerError::UnsupportedProjectType));
}

#[test]
fn version_lines_per_file_kind() {
    let cargo = String::from("[package]\nname = \"demo\"\nversion = \"1.2.3\"\n");
    assert_eq!(
        project_version_line(&String::from("Cargo.toml"), &String::from("/p/Cargo.toml"), &cargo)
            .as_deref(),
        Some("Rust Project: demo, Version: 1.2.3")
    );

    let npm = String::from(r#"{"name": "webapp", "version": "2.0.0"}"#);
    assert_eq!(
        project_version_line(&String::from("package.json"), &String::from("/p/package.json"), &npm)
            .as_deref(),
        Some("NPM Project: webapp, Version: 2.0.0")
    );

    let gomod = String::from("module example.com/svc\n\ngo 1.21\n");
    assert_eq!(
        project_version_line(&String::from("go.mod"), &String::from("/p/go.mod"), &gomod)
            .as_deref(),
        Some("Go Project: example.com/svc, Version: 1.21")
    );

    assert_eq!(
        project_version_line(
            &String::from("App.xcodeproj"),
            &String::from("/p/App.xcodeproj"),
            &String::new(),
        )
        .as_deref(),
        Some("iOS Project: Located at /p/App.xcodeproj")
    );

    let gradle = String::from("android {\n  applicationId \"com.example.app\"\n}\n");
    assert_eq!(
        project_version_line(
            &String::from("build.gradle"),
            &String::from("/p/build.gradle"),
            &gradle,
        )
        .as_deref(),
        Some("Android Project: com.example.app, Located at /p/build.gradle")
    );

    // unrecognised files, and recognised files without the data, report nothing
    assert!(project_version_line(&String::from("README.md"), &String::from("/p"), &cargo)
        .is_none());
    assert!(project_version_line(
        &String::from("Cargo.toml"),
        &String::from("/p"),
        &String::from("[dependencies]\n"),
    )
    .is_none());
    assert!(project_version_line(
        &String::from("go.mod"),
        &String::from("/p"),
        &String::from("nothing here"),
    )
    .is_none());
}

#[test]
fn walk_ignores_build_outputs() {
    assert!(is_ignored(&String::from("target")));
    assert!(is_ignored(&String::from("node_modules")));
    assert!(!is_ignored(&String::from("src")));
}
