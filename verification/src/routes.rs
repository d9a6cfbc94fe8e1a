//! Dispatch: from a parsed command line, or from the flag-style
//! configuration options, to the action the tool performs.  Performing
//! the action — prompting, git calls, filesystem work — is the caller's
//! business; which action a command means is decided here.

use vstd::prelude::*;

verus! {

/// The tool's subcommands, as the command line parses them.
#[derive(Debug, Clone, PartialEq, Eq)]
pub enum Commands {
    /// Configure settings.
    Config {},
    /// Start something new.
    New {},
    /// Update the git repo and publish the module.
    Update { m: Option<String> },
    /// Print the versions of all apps under a directory.
    Versions { d: Option<String> },
    /// Execute a named shortcut.
    S { name: String },
    /// Bump the project version.
    Bump { version_part: Option<String> },
    /// Show the default account's repository.
    Repo {},
    /// Update the workspace's local dependencies.
    Workspace {},
    /// Manage a submodule.
    Submodule {},
    /// Run a maintenance script.
    Scripts {},
}

/// What a command asks the tool to do.
#[derive(Debug, Clone, PartialEq, Eq)]
pub enum RouteAction {
    LaunchConfigSetup,
    RunScaffold,
    Update { message: Option<String> },
    ExecuteShortcut { name: String },
    Bump { version_part: String },
    Versions { directory: Option<String> },
    Repo,
    Workspace,
    Submodule,
    Scripts,
}

/// The action a command line means.  No command at all launches the
/// scaffold, and a bump without a part bumps the patch version.
pub fn route_command(command: Option<Commands>) -> (r: RouteAction)
    ensures
        match command {
            None => r is RunScaffold,
            Some(c) => match c {
                Commands::Config {  } => r is LaunchConfigSetup,
                Commands::New {  } => r is RunScaffold,
                Commands::Update { m } => (r matches RouteAction::Update { message } && message
                    == m),
                Commands::S { name } => (r matches RouteAction::ExecuteShortcut { name: n } && n
                    == name),
                Commands::Bump { version_part } => match version_part {
                    Some(v) => (r matches RouteAction::Bump { version_part: p } && p == v),
                    None => (r matches RouteAction::Bump { version_part: p } && p@ == "patch"@),
                },
                Commands::Versions { d } => (r matches RouteAction::Versions { directory }
                    && directory == d),
                Commands::Repo {  } => r is Repo,
                Commands::Workspace {  } => r is Workspace,
                Commands::Submodule {  } => r is Submodule,
                Commands::Scripts {  } => r is Scripts,
            },
        },
{
    match command {
        None => RouteAction::RunScaffold,
        Some(c) => match c {
            Commands::Config {  } => RouteAction::LaunchConfigSetup,
            Commands::New {  } => RouteAction::RunScaffold,
            Commands::Update { m } => RouteAction::Update { message: m },
            Commands::S { name } => RouteAction::ExecuteShortcut { name },
            Commands::Bump { version_part } => match version_part {
                Some(v) => RouteAction::Bump { version_part: v },
                None => RouteAction::Bump { version_part: String::from_str("patch") },
            },
            Commands::Versions { d } => RouteAction::Versions { directory: d },
            Commands::Repo {  } => RouteAction::Repo,
            Commands::Workspace {  } => RouteAction::Workspace,
            Commands::Submodule {  } => RouteAction::Submodule,
            Commands::Scripts {  } => RouteAction::Scripts,
        },
    }
}

/// The flag-style configuration options.
#[derive(Debug, Clone, PartialEq, Eq)]
pub struct ConfigOptions {
    pub github_token: Option<String>,
    pub iphone: Option<String>,
    pub s1: Option<String>,
    pub s2: Option<String>,
    pub s3: Option<String>,
}

/// One configuration update that a flag asks for.
#[derive(Debug, Clone, PartialEq, Eq)]
pub enum ConfigAction {
    SetGitToken { token: String },
    SetShortcut { slot: u8, command: String },
}

/// The updates that a set of flags asks for, in flag order.  The
/// `iphone` flag goes through the git-token setter too.
pub open spec fn spec_config_actions(config: ConfigOptions) -> Seq<ConfigAction> {
    (if config.github_token is Some {
        seq![ConfigAction::SetGitToken { token: config.github_token->0 }]
    } else {
        Seq::empty()
    }) + (if config.iphone is Some {
        seq![ConfigAction::SetGitToken { token: config.iphone->0 }]
    } else {
        Seq::empty()
    }) + (if config.s1 is Some {
        seq![ConfigAction::SetShortcut { slot: 1u8, command: config.s1->0 }]
    } else {
        Seq::empty()
    }) + (if config.s2 is Some {
        seq![ConfigAction::SetShortcut { slot: 2u8, command: config.s2->0 }]
    } else {
        Seq::empty()
    }) + (if config.s3 is Some {
        seq![ConfigAction::SetShortcut { slot: 3u8, command: config.s3->0 }]
    } else {
        Seq::empty()
    })
}

/// The configuration updates the given flags ask for.
pub fn route_config_command(config: ConfigOptions) -> (r: Vec<ConfigAction>)
    ensures
        r@ == spec_config_actions(config),
{
    let ghost c0 = config;
    let mut r: Vec<ConfigAction> = Vec::new();
    let ConfigOptions { github_token, iphone, s1, s2, s3 } = config;
    match github_token {
        Some(token) => r.push(ConfigAction::SetGitToken { token }),
        None => {},
    }
    match iphone {
        Some(token) => r.push(ConfigAction::SetGitToken { token }),
        None => {},
    }
    match s1 {
        Some(shortcut) => r.push(ConfigAction::SetShortcut { slot: 1, command: shortcut }),
        None => {},
    }
    match s2 {
        Some(shortcut) => r.push(ConfigAction::SetShortcut { slot: 2, command: shortcut }),
        None => {},
    }
    match s3 {
        Some(shortcut) => r.push(ConfigAction::SetShortcut { slot: 3, command: shortcut }),
        None => {},
    }
    proof {
        assert(r@ =~= spec_config_actions(c0));
    }
    r
}

} // verus!
