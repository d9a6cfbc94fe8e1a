//! What a new project or module is made of: the apps it includes, each
//! app's chosen features, and the project- and module-level settings the
//! prompts collect.  The prompts themselves are the caller's business;
//! every rule about what a selection means is here.

use vstd::prelude::*;

use crate::config::CargoTomlConfig;
use crate::config::default_is;

verus! {

/// The features a desktop app can include.
#[derive(Debug, Clone, Copy, PartialEq, Eq)]
pub enum DesktopFeature {
    Server,
    Redis,
    Aws,
}

impl DesktopFeature {
    pub fn to_str(&self) -> (r: &'static str)
        ensures
            *self == DesktopFeature::Server ==> r@ == "Local Server"@,
            *self == DesktopFeature::Redis ==> r@ == "Redis"@,
            *self == DesktopFeature::Aws ==> r@ == "AWS"@,
    {
        match self {
            DesktopFeature::Server => "Local Server",
            DesktopFeature::Redis => "Redis",
            DesktopFeature::Aws => "AWS",
        }
    }

    /// The user-facing name of the feature.
    pub fn label(&self) -> (r: &'static str)
        ensures
            *self == DesktopFeature::Server ==> r@ == "Local webserver"@,
            *self == DesktopFeature::Redis ==> r@ == "Redis"@,
            *self == DesktopFeature::Aws ==> r@ == "AWS"@,
    {
        match self {
            DesktopFeature::Server => "Local webserver",
            DesktopFeature::Redis => "Redis",
            DesktopFeature::Aws => "AWS",
        }
    }

    /// Every feature, in menu order.
    pub fn all() -> (r: Vec<DesktopFeature>)
        ensures
            r@ =~= seq![DesktopFeature::Server, DesktopFeature::Redis, DesktopFeature::Aws],
    {
        let mut r: Vec<DesktopFeature> = Vec::new();
        r.push(DesktopFeature::Server);
        r.push(DesktopFeature::Redis);
        r.push(DesktopFeature::Aws);
        r
    }
}

/// A desktop app and its chosen features.
#[derive(Debug, Clone, PartialEq, Eq)]
pub struct DesktopApp {
    pub features: Vec<DesktopFeature>,
}

impl DesktopApp {
    pub fn new() -> (r: DesktopApp)
        ensures
            r.features@.len() == 0,
    {
        DesktopApp { features: Vec::new() }
    }

    /// A desktop app with exactly the chosen features, in choice order.
    pub fn choose_desktop_options(selected_features: Vec<DesktopFeature>) -> (r: DesktopApp)
        ensures
            r.features@ == selected_features@,
    {
        DesktopApp { features: selected_features }
    }
}

/// The features a web app can include.
#[derive(Debug, Clone, Copy, PartialEq, Eq)]
pub enum WebFeature {
    SSG,
    FontAwesome,
    Wasm,
}

impl WebFeature {
    /// The user-facing name of the feature.
    pub fn label(&self) -> (r: &'static str)
        ensures
            *self == WebFeature::SSG ==> r@ == "Static-Site Generator"@,
            *self == WebFeature::FontAwesome ==> r@ == "FontAwesome"@,
            *self == WebFeature::Wasm ==> r@ == "Wasm"@,
    {
        match self {
            WebFeature::SSG => "Static-Site Generator",
            WebFeature::FontAwesome => "FontAwesome",
            WebFeature::Wasm => "Wasm",
        }
    }

    /// Every feature, in menu order.
    pub fn all() -> (r: Vec<WebFeature>)
        ensures
            r@ =~= seq![WebFeature::SSG, WebFeature::FontAwesome, WebFeature::Wasm],
    {
        let mut r: Vec<WebFeature> = Vec::new();
        r.push(WebFeature::SSG);
        r.push(WebFeature::FontAwesome);
        r.push(WebFeature::Wasm);
        r
    }
}

/// A web app and its chosen features.
#[derive(Debug, Clone, PartialEq, Eq)]
pub struct WebApp {
    pub features: Vec<WebFeature>,
}

impl WebApp {
    pub fn new() -> (r: WebApp)
        ensures
            r.features@.len() == 0,
    {
        WebApp { features: Vec::new() }
    }

    /// A web app with exactly the chosen features, in choice order.
    pub fn choose_webapp_options(selected_features: Vec<WebFeature>) -> (r: WebApp)
        ensures
            r.features@ == selected_features@,
    {
        WebApp { features: selected_features }
    }
}

/// The flavor of a server app.
#[derive(Debug, Clone, Copy, PartialEq, Eq)]
pub enum ServerFlavor {
    GoWebRustServices,
    AllRust,
    AllGo,
}

impl ServerFlavor {
    /// The user-facing name of the flavor.
    pub fn label(&self) -> (r: &'static str)
        ensures
            *self == ServerFlavor::GoWebRustServices ==> r@ == "Go webserver with Rust Services"@,
            *self == ServerFlavor::AllRust ==> r@ == "Rust all the way"@,
            *self == ServerFlavor::AllGo ==> r@ == "Go all the way"@,
    {
        match self {
            ServerFlavor::GoWebRustServices => "Go webserver with Rust Services",
            ServerFlavor::AllRust => "Rust all the way",
            ServerFlavor::AllGo => "Go all the way",
        }
    }

    /// Every flavor, in menu order.
    pub fn all() -> (r: Vec<ServerFlavor>)
        ensures
            r@ =~= seq![
                ServerFlavor::GoWebRustServices,
                ServerFlavor::AllRust,
                ServerFlavor::AllGo,
            ],
    {
        let mut r: Vec<ServerFlavor> = Vec::new();
        r.push(ServerFlavor::GoWebRustServices);
        r.push(ServerFlavor::AllRust);
        r.push(ServerFlavor::AllGo);
        r
    }
}

/// The features a server app can include.
#[derive(Debug, Clone, Copy, PartialEq, Eq)]
pub enum ServerFeature {
    Redis,
    Aws,
    Database,
    Dockerize,
}

impl ServerFeature {
    /// The user-facing name of the feature.
    pub fn label(&self) -> (r: &'static str)
        ensures
            *self == ServerFeature::Redis ==> r@ == "Redis"@,
            *self == ServerFeature::Aws ==> r@ == "AWS"@,
            *self == ServerFeature::Database ==> r@ == "Postgres DB"@,
            *self == ServerFeature::Dockerize ==> r@ == "Dockerize"@,
    {
        match self {
            ServerFeature::Redis => "Redis",
            ServerFeature::Aws => "AWS",
            ServerFeature::Database => "Postgres DB",
            ServerFeature::Dockerize => "Dockerize",
        }
    }

    /// Every feature, in menu order.
    pub fn all() -> (r: Vec<ServerFeature>)
        ensures
            r@ =~= seq![
                ServerFeature::Redis,
                ServerFeature::Aws,
                ServerFeature::Database,
                ServerFeature::Dockerize,
            ],
    {
        let mut r: Vec<ServerFeature> = Vec::new();
        r.push(ServerFeature::Redis);
        r.push(ServerFeature::Aws);
        r.push(ServerFeature::Database);
        r.push(ServerFeature::Dockerize);
        r
    }
}

/// A server app: its flavor, port and chosen features.
#[derive(Debug, Clone, PartialEq, Eq)]
pub struct ServerApp {
    pub flavor: ServerFlavor,
    pub port: u16,
    pub features: Vec<ServerFeature>,
}

impl ServerApp {
    pub fn new() -> (r: ServerApp)
        ensures
            r.flavor == ServerFlavor::GoWebRustServices,
            r.port == 0,
            r.features@.len() == 0,
    {
        ServerApp { flavor: ServerFlavor::GoWebRustServices, port: 0, features: Vec::new() }
    }

    pub fn default() -> (r: ServerApp)
        ensures
            r.flavor == ServerFlavor::GoWebRustServices,
            r.port == 0,
            r.features@.len() == 0,
    {
        ServerApp::new()
    }

    /// A server app built from the chosen port, flavor and features.
    pub fn choose_server_options(
        port: u16,
        flavor: ServerFlavor,
        selected_features: Vec<ServerFeature>,
    ) -> (r: ServerApp)
        ensures
            r.port == port,
            r.flavor == flavor,
            r.features@ == selected_features@,
    {
        ServerApp { flavor, port, features: selected_features }
    }

    /// The features a server starts out selected with.
    pub fn default_features() -> (r: Vec<ServerFeature>)
        ensures
            r@ =~= seq![ServerFeature::Dockerize],
    {
        let mut r: Vec<ServerFeature> = Vec::new();
        r.push(ServerFeature::Dockerize);
        r
    }
}

/// One app of a project.
#[derive(Debug, Clone, PartialEq, Eq)]
pub enum App {
    Server(ServerApp),
    Web(WebApp),
    Desktop(DesktopApp),
}

/// The choices of the top-level menu.
#[derive(Debug, Clone, Copy, PartialEq, Eq)]
pub enum MainOptions {
    LaunchNewProject,
    CreateModule,
    Config,
    RunScript,
    Exit,
}

impl MainOptions {
    /// The user-facing name of the choice.
    pub fn label(&self) -> (r: &'static str)
        ensures
            *self == MainOptions::LaunchNewProject ==> r@ == "Launch new project"@,
            *self == MainOptions::CreateModule ==> r@ == "Create module"@,
            *self == MainOptions::Config ==> r@ == "Config"@,
            *self == MainOptions::RunScript ==> r@ == "Run Script"@,
            *self == MainOptions::Exit ==> r@ == "Exit"@,
    {
        match self {
            MainOptions::LaunchNewProject => "Launch new project",
            MainOptions::CreateModule => "Create module",
            MainOptions::Config => "Config",
            MainOptions::RunScript => "Run Script",
            MainOptions::Exit => "Exit",
        }
    }

    /// Every choice, in menu order.
    pub fn all() -> (r: Vec<MainOptions>)
        ensures
            r@ =~= seq![
                MainOptions::LaunchNewProject,
                MainOptions::CreateModule,
                MainOptions::Config,
                MainOptions::RunScript,
                MainOptions::Exit,
            ],
    {
        let mut r: Vec<MainOptions> = Vec::new();
        r.push(MainOptions::LaunchNewProject);
        r.push(MainOptions::CreateModule);
        r.push(MainOptions::Config);
        r.push(MainOptions::RunScript);
        r.push(MainOptions::Exit);
        r
    }
}

/// The interactive scaffolding session.
#[derive(Debug)]
pub struct Scaffold {}

impl Scaffold {
    /// The license a new project carries: the configured default, or,
    /// when none is configured yet, the entered license, which becomes
    /// the default.
    pub fn select_license(cargo_toml: &mut CargoTomlConfig, entered: &String) -> (r: String)
        ensures
            final(cargo_toml).authors == old(cargo_toml).authors,
            final(cargo_toml).default_author == old(cargo_toml).default_author,
            match old(cargo_toml).default_license {
                Some(l) => r@ == l@ && final(cargo_toml).default_license == old(
                    cargo_toml,
                ).default_license,
                None => r@ == entered@ && default_is(final(cargo_toml).default_license, entered@),
            },
    {
        match &cargo_toml.default_license {
            Some(l) => l.clone(),
            None => cargo_toml.set_default_license(entered.clone()),
        }
    }
}

/// How to proceed when the project directory already exists.
#[derive(Debug, Clone, Copy, PartialEq, Eq)]
pub enum DirectoryFix {
    ChangeDirectory,
    ChangeProjectName,
    StartOver,
}

impl DirectoryFix {
    /// The user-facing name of the fix.
    pub fn label(&self) -> (r: &'static str)
        ensures
            *self == DirectoryFix::ChangeDirectory ==> r@ == "Change directory"@,
            *self == DirectoryFix::ChangeProjectName ==> r@ == "Change project name"@,
            *self == DirectoryFix::StartOver ==> r@ == "Start over"@,
    {
        match self {
            DirectoryFix::ChangeDirectory => "Change directory",
            DirectoryFix::ChangeProjectName => "Change project name",
            DirectoryFix::StartOver => "Start over",
        }
    }

    /// Every fix, in menu order.
    pub fn all() -> (r: Vec<DirectoryFix>)
        ensures
            r@ =~= seq![
                DirectoryFix::ChangeDirectory,
                DirectoryFix::ChangeProjectName,
                DirectoryFix::StartOver,
            ],
    {
        let mut r: Vec<DirectoryFix> = Vec::new();
        r.push(DirectoryFix::ChangeDirectory);
        r.push(DirectoryFix::ChangeProjectName);
        r.push(DirectoryFix::StartOver);
        r
    }
}

/// A project under construction: its name, the directory to build in,
/// and the apps it will include.
#[derive(Debug, Clone, PartialEq, Eq)]
pub struct ProjectScaffold {
    pub name: String,
    pub directory: String,
    pub apps: Vec<App>,
}

/// Whether the selected apps call for the extra web front end that every
/// non-server app is paired with.
pub fn needs_extra_webapp(apps: &Vec<App>) -> (r: bool)
    ensures
        r == exists|i: int|
            0 <= i < apps@.len() && ((#[trigger] apps@[i]) matches App::Web(_) || apps@[i]
                matches App::Desktop(_)),
{
    let mut i: usize = 0;
    while i < apps.len()
        invariant
            i <= apps.len(),
            forall|j: int|
                0 <= j < i ==> !((#[trigger] apps@[j]) matches App::Web(_)) && !(apps@[j]
                    matches App::Desktop(_)),
        decreases apps.len() - i,
    {
        match &apps[i] {
            App::Web(_) => {
                return true;
            },
            App::Desktop(_) => {
                return true;
            },
            App::Server(_) => {},
        }
        i = i + 1;
    }
    false
}

impl ProjectScaffold {
    /// A fresh project in the given working directory.
    pub fn new(directory: String) -> (r: ProjectScaffold)
        ensures
            r.name@.len() == 0,
            r.directory@ == directory@,
            r.apps@.len() == 0,
    {
        ProjectScaffold { name: String::new(), directory, apps: Vec::new() }
    }

    /// Record the entered project name.
    pub fn set_name(&mut self, project_name: String)
        ensures
            final(self).name@ == project_name@,
            final(self).directory == old(self).directory,
            final(self).apps == old(self).apps,
    {
        self.name = project_name;
    }

    /// Record the entered build directory.
    pub fn set_project_dir(&mut self, dir: String)
        ensures
            final(self).directory@ == dir@,
            final(self).name == old(self).name,
            final(self).apps == old(self).apps,
    {
        self.directory = dir;
    }

    /// Record the configured apps, after each selection was filled in.
    pub fn get_app_settings(&mut self, new_apps: Vec<App>)
        ensures
            final(self).apps@ == old(self).apps@ + new_apps@,
            final(self).name == old(self).name,
            final(self).directory == old(self).directory,
    {
        let mut new_apps = new_apps;
        self.apps.append(&mut new_apps);
    }
}

/// The features a Go module can include.
#[derive(Debug, Clone, Copy, PartialEq, Eq)]
pub enum GoModFeature {
    Async,
    Tests,
}

impl GoModFeature {
    /// The user-facing name of the feature.
    pub fn label(&self) -> (r: &'static str)
        ensures
            *self == GoModFeature::Async ==> r@ == "Async"@,
            *self == GoModFeature::Tests ==> r@ == "Tests"@,
    {
        match self {
            GoModFeature::Async => "Async",
            GoModFeature::Tests => "Tests",
        }
    }

    /// Every feature, in menu order.
    pub fn all() -> (r: Vec<GoModFeature>)
        ensures
            r@ =~= seq![GoModFeature::Async, GoModFeature::Tests],
    {
        let mut r: Vec<GoModFeature> = Vec::new();
        r.push(GoModFeature::Async);
        r.push(GoModFeature::Tests);
        r
    }
}

/// A Go module and its chosen features.
#[derive(Debug, Clone, PartialEq, Eq)]
pub struct GoModuleScaffold {
    pub features: Vec<GoModFeature>,
}

impl GoModuleScaffold {
    pub fn new() -> (r: GoModuleScaffold)
        ensures
            r.features@.len() == 0,
    {
        GoModuleScaffold { features: Vec::new() }
    }

    /// A Go module with exactly the chosen features, in choice order.
    pub fn choose_options(selected_features: Vec<GoModFeature>) -> (r: GoModuleScaffold)
        ensures
            r.features@ == selected_features@,
    {
        GoModuleScaffold { features: selected_features }
    }
}

/// The features a Rust module can include.
#[derive(Debug, Clone, Copy, PartialEq, Eq)]
pub enum RustModFeature {
    Async,
    Tests,
}

impl RustModFeature {
    /// The user-facing name of the feature.
    pub fn label(&self) -> (r: &'static str)
        ensures
            *self == RustModFeature::Async ==> r@ == "Async"@,
            *self == RustModFeature::Tests ==> r@ == "Tests"@,
    {
        match self {
            RustModFeature::Async => "Async",
            RustModFeature::Tests => "Tests",
        }
    }

    /// Every feature, in menu order.
    pub fn all() -> (r: Vec<RustModFeature>)
        ensures
            r@ =~= seq![RustModFeature::Async, RustModFeature::Tests],
    {
        let mut r: Vec<RustModFeature> = Vec::new();
        r.push(RustModFeature::Async);
        r.push(RustModFeature::Tests);
        r
    }
}

/// A Rust module and its chosen features.
#[derive(Debug, Clone, PartialEq, Eq)]
pub struct RustModuleScaffold {
    pub features: Vec<RustModFeature>,
}

impl RustModuleScaffold {
    pub fn new() -> (r: RustModuleScaffold)
        ensures
            r.features@.len() == 0,
    {
        RustModuleScaffold { features: Vec::new() }
    }

    /// A Rust module with exactly the chosen features, in choice order.
    pub fn choose_options(selected_features: Vec<RustModFeature>) -> (r: RustModuleScaffold)
        ensures
            r.features@ == selected_features@,
    {
        RustModuleScaffold { features: selected_features }
    }
}

/// The kind of module being scaffolded.
#[derive(Debug, Clone, PartialEq, Eq)]
pub enum Module {
    Rust(RustModuleScaffold),
    Go(GoModuleScaffold),
}

impl Module {
    /// The user-facing name of the kind.
    pub fn label(&self) -> (r: &'static str)
        ensures
            (*self matches Module::Rust(_)) ==> r@ == "Rust"@,
            (*self matches Module::Go(_)) ==> r@ == "Go"@,
    {
        match self {
            Module::Rust(_) => "Rust",
            Module::Go(_) => "Go",
        }
    }
}

/// A module under construction: its name, directory, kind, description
/// and repository visibility.
#[derive(Debug, Clone, PartialEq, Eq)]
pub struct ModuleScaffold {
    pub name: String,
    pub directory: String,
    pub module: Module,
    pub description: String,
    pub is_private: bool,
}

impl ModuleScaffold {
    /// A fresh module of the chosen kind in the given working
    /// directory; new repositories start out private.
    pub fn new(directory: String, module: Module) -> (r: ModuleScaffold)
        ensures
            r.name@.len() == 0,
            r.description@.len() == 0,
            r.directory@ == directory@,
            r.module == module,
            r.is_private,
    {
        ModuleScaffold {
            name: String::new(),
            directory,
            module,
            description: String::new(),
            is_private: true,
        }
    }

    /// Record the entered module name.
    pub fn set_name(&mut self, project_name: String)
        ensures
            final(self).name@ == project_name@,
            final(self).directory == old(self).directory,
            final(self).module == old(self).module,
            final(self).description == old(self).description,
            final(self).is_private == old(self).is_private,
    {
        self.name = project_name;
    }

    /// Record the entered description.
    pub fn set_description(&mut self, project_description: String)
        ensures
            final(self).description@ == project_description@,
            final(self).name == old(self).name,
            final(self).directory == old(self).directory,
            final(self).module == old(self).module,
            final(self).is_private == old(self).is_private,
    {
        self.description = project_description;
    }

    /// Record the entered build directory.
    pub fn set_module_directory(&mut self, dir: String)
        ensures
            final(self).directory@ == dir@,
            final(self).name == old(self).name,
            final(self).module == old(self).module,
            final(self).description == old(self).description,
            final(self).is_private == old(self).is_private,
    {
        self.directory = dir;
    }

    /// Record the repository-visibility answer: the repository is
    /// private exactly when the answer is `Yes`.
    pub fn set_is_private(&mut self, decision: &String)
        ensures
            final(self).is_private == (decision@ == "Yes"@),
            final(self).name == old(self).name,
            final(self).directory == old(self).directory,
            final(self).module == old(self).module,
            final(self).description == old(self).description,
    {
        let yes: String = String::from_str("Yes");
        self.is_private = *decision == yes;
    }
}

} // verus!
