//! The command line as data: the options, the commands and the pages of a
//! repository that commands can open.

use vstd::prelude::*;
use vstd::string::StringExecFns;

verus! {

/// The parsed command line.
#[derive(Debug, Clone)]
pub struct Cli {
    /// The access token given on the command line, if any.
    pub token: Option<String>,
    /// Whether progress and other output that is no error is suppressed.
    pub quiet: bool,
    /// The command, if one was given.
    pub command: Option<Commands>,
}

/// The commands.
#[derive(Debug, Clone)]
#[allow(inconsistent_fields)]
pub enum Commands {
    Tui,
    Data { action: DataCommands },
    Issues,
    Actions,
    Settings,
    Milestones,
    Prs,
    Watch { target: WatchCommands },
    Raycast { action: RaycastCommands },
    Completions { shell: String },
    Version,
}

/// What to do with the cached data.
#[derive(Debug, Clone, Copy, PartialEq, Eq, Structural)]
pub enum DataCommands {
    Refresh,
    Clear,
    Status,
    Export,
    Reveal,
}

/// What to watch.
#[derive(Debug, Clone, Copy, PartialEq, Eq, Structural)]
pub enum WatchCommands {
    Action,
}

/// The requests of the Raycast extension.
#[derive(Debug, Clone)]
pub enum RaycastCommands {
    Search { query: String, count: usize, json: bool },
}

/// A page of a repository.
#[derive(Debug, Clone, Copy, PartialEq, Eq, Structural)]
pub enum ViewType {
    Repo,
    Issues,
    Actions,
    PullRequests,
    Settings,
    Milestones,
}

impl ViewType {
    /// The name of the page, as it stands in addresses.
    pub open spec fn label(self) -> Seq<char> {
        match self {
            ViewType::Repo => "repo"@,
            ViewType::Issues => "issues"@,
            ViewType::Actions => "actions"@,
            ViewType::PullRequests => "pulls"@,
            ViewType::Settings => "settings"@,
            ViewType::Milestones => "milestones"@,
        }
    }

    /// The name of the page, as it stands in addresses.
    pub fn as_str(&self) -> (name: &'static str)
        ensures
            name@ == self.label(),
    {
        match self {
            ViewType::Repo => "repo",
            ViewType::Issues => "issues",
            ViewType::Actions => "actions",
            ViewType::PullRequests => "pulls",
            ViewType::Settings => "settings",
            ViewType::Milestones => "milestones",
        }
    }

    /// The name of the page, as it stands in addresses.
    pub fn to_string(&self) -> (name: String)
        ensures
            name@ == self.label(),
    {
        String::from_str(self.as_str())
    }
}

impl Commands {
    /// The page of the current repository that the command opens, for the
    /// commands that open one.
    pub open spec fn page(self) -> Option<ViewType> {
        match self {
            Commands::Issues => Some(ViewType::Issues),
            Commands::Actions => Some(ViewType::Actions),
            Commands::Settings => Some(ViewType::Settings),
            Commands::Milestones => Some(ViewType::Milestones),
            Commands::Prs => Some(ViewType::PullRequests),
            _ => None,
        }
    }

    /// Computes `page`.
    pub fn view(&self) -> (view: Option<ViewType>)
        ensures
            view == self.page(),
    {
        match self {
            Commands::Issues => Some(ViewType::Issues),
            Commands::Actions => Some(ViewType::Actions),
            Commands::Settings => Some(ViewType::Settings),
            Commands::Milestones => Some(ViewType::Milestones),
            Commands::Prs => Some(ViewType::PullRequests),
            _ => None,
        }
    }
}

/// No access token was given.
#[derive(Debug, Clone, Copy, PartialEq, Eq, Structural)]
pub struct MissingTokenError;

impl MissingTokenError {
    /// The message of the error.
    pub fn to_string(&self) -> (text: String)
        ensures
            text@ == "GitHub token required. Set GITHUB_TOKEN env var or use --token flag"@,
    {
        String::from_str("GitHub token required. Set GITHUB_TOKEN env var or use --token flag")
    }
}

/// The access token to use: the one from the command line, else the one from
/// the environment.
pub fn resolve_token(from_cli: Option<String>, from_env: Option<String>) -> (r: Result<
    String,
    MissingTokenError,
>)
    ensures
        r == match from_cli {
            Some(token) => Ok::<String, MissingTokenError>(token),
            None => match from_env {
                Some(token) => Ok::<String, MissingTokenError>(token),
                None => Err::<String, MissingTokenError>(MissingTokenError),
            },
        },
{
    match from_cli {
        Some(token) => Ok(token),
        None => match from_env {
            Some(token) => Ok(token),
            None => Err(MissingTokenError),
        },
    }
}

/// The command to run: the one given, or the finder when none was.
pub fn command_or_default(command: Option<Commands>) -> (chosen: Commands)
    ensures
        chosen == match command {
            Some(given) => given,
            None => Commands::Tui,
        },
{
    match command {
        Some(given) => given,
        None => Commands::Tui,
    }
}

} // verus!
