//! Scaffolding settings and selections.

use cnctd::config::CargoTomlConfig;
use cnctd::scaffold::{
    App, DesktopApp, DesktopFeature, DirectoryFix, GoModFeature, GoModuleScaffold, MainOptions,
    Module, ModuleScaffold, ProjectScaffold, RustModFeature, RustModuleScaffold, Scaffold,
    ServerApp, ServerFeature, ServerFlavor, WebApp, WebFeature, needs_extra_webapp,
};

#[test]
fn feature_labels_and_menus() {
    assert_eq!(DesktopFeature::Server.to_str(), "Local Server");
    assert_eq!(DesktopFeature::Server.label(), "Local webserver");
    assert_eq!(DesktopFeature::Aws.to_str(), "AWS");
    assert_eq!(DesktopFeature::all().len(), 3);
    assert_eq!(WebFeature::SSG.label(), "Static-Site Generator");
    assert_eq!(WebFeature::all().len(), 3);
    assert_eq!(ServerFlavor::AllRust.label(), "Rust all the way");
    assert_eq!(ServerFlavor::all().len(), 3);
    assert_eq!(ServerFeature::Database.label(), "Postgres DB");
    assert_eq!(ServerFeature::all().len(), 4);
    assert_eq!(MainOptions::LaunchNewProject.label(), "Launch new project");
    assert_eq!(MainOptions::all().len(), 5);
    assert_eq!(DirectoryFix::ChangeProjectName.label(), "Change project name");
    assert_eq!(DirectoryFix::all().len(), 3);
    assert_eq!(GoModFeature::Async.label(), "Async");
    assert_eq!(RustModFeature::Tests.label(), "Tests");
}

#[test]
fn server_app_construction() {
    let s = ServerApp::new();
    assert_eq!(s.flavor, ServerFlavor::GoWebRustServices);
    assert_eq!(s.port, 0);
    assert!(s.features.is_empty());
    assert_eq!(ServerApp::default(), s);
    assert_eq!(ServerApp::default_features(), vec![ServerFeature::Dockerize]);

    let chosen = ServerApp::choose_server_options(
        8181,
        ServerFlavor::AllRust,
        vec![ServerFeature::Redis, ServerFeature::Dockerize],
    );
    assert_eq!(chosen.port, 8181);
    assert_eq!(chosen.flavor, ServerFlavor::AllRust);
    assert_eq!(chosen.features, vec![ServerFeature::Redis, ServerFeature::Dockerize]);
}

#[test]
fn web_and_desktop_apps_keep_their_selections() {
    assert!(WebApp::new().features.is_empty());
    let w = WebApp::choose_webapp_options(vec![WebFeature::Wasm]);
    assert_eq!(w.features, vec![WebFeature::Wasm]);
    assert!(DesktopApp::new().features.is_empty());
    let d = DesktopApp::choose_desktop_options(vec![DesktopFeature::Redis]);
    assert_eq!(d.features, vec![DesktopFeature::Redis]);
}

#[test]
fn project_scaffold_settings() {
    let mut p = ProjectScaffold::new(String::from("/home/alice"));
    assert_eq!(p.directory, "/home/alice");
    assert!(p.name.is_empty() && p.apps.is_empty());
    p.set_name(String::from("new_project"));
    p.set_project_dir(String::from("/srv"));
    p.get_app_settings(vec![App::Server(ServerApp::new())]);
    p.get_app_settings(vec![App::Web(WebApp::new())]);
    assert_eq!(p.name, "new_project");
    assert_eq!(p.directory, "/srv");
    assert_eq!(p.apps.len(), 2);
}

#[test]
fn extra_webapp_is_needed_for_frontend_apps() {
    assert!(!needs_extra_webapp(&vec![]));
    assert!(!needs_extra_webapp(&vec![App::Server(ServerApp::new())]));
    assert!(needs_extra_webapp(&vec![App::Web(WebApp::new())]));
    assert!(needs_extra_webapp(&vec![
        App::Server(ServerApp::new()),
        App::Desktop(DesktopApp::new()),
    ]));
}

#[test]
fn module_scaffold_settings() {
    let mut m = ModuleScaffold::new(
        String::from("/work"),
        Module::Rust(RustModuleScaffold::new()),
    );
    assert!(m.is_private);
    assert_eq!(m.module.label(), "Rust");
    m.set_name(String::from("new_module"));
    m.set_description(String::from("scaffolded"));
    m.set_module_directory(String::from("/work/mods"));
    m.set_is_private(&String::from("No"));
    assert!(!m.is_private);
    m.set_is_private(&String::from("Yes"));
    assert!(m.is_private);
    assert_eq!(m.name, "new_module");
    assert_eq!(m.description, "scaffolded");
    assert_eq!(m.directory, "/work/mods");

    let g = Module::Go(GoModuleScaffold::choose_options(vec![GoModFeature::Tests]));
    assert_eq!(g.label(), "Go");
    let r = RustModuleScaffold::choose_options(vec![RustModFeature::Async]);
    assert_eq!(r.features, vec![RustModFeature::Async]);
}

#[test]
fn select_license_prefers_the_configured_default() {
    let mut c = CargoTomlConfig {
        authors: None,
        default_author: None,
        default_license: Some(String::from("MIT")),
    };
    assert_eq!(Scaffold::select_license(&mut c, &String::from("Apache-2.0")), "MIT");
    assert_eq!(c.default_license.as_deref(), Some("MIT"));

    let mut fresh =
        CargoTomlConfig { authors: None, default_author: None, default_license: None };
    assert_eq!(Scaffold::select_license(&mut fresh, &String::from("Apache-2.0")), "Apache-2.0");
    assert_eq!(fresh.default_license.as_deref(), Some("Apache-2.0"));
}
