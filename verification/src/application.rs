//! What the commands report: the outcome of a refresh of the cache and the
//! workflow run found for the current branch.

use crate::github_api::{is_running, status_is_running, WorkflowRun};
use crate::text::{numeral, push_numeral};
use vstd::prelude::*;
use vstd::string::StringExecFns;

verus! {

/// How much a refresh fetched.
#[derive(Debug, Clone, Copy, PartialEq, Eq, Structural)]
pub struct RefreshResult {
    pub orgs_fetched: usize,
    pub repos_fetched: usize,
}

impl RefreshResult {
    /// The report of the refresh.
    pub open spec fn report(self) -> Seq<char> {
        "Fetched "@ + numeral(self.orgs_fetched as nat) + " org(s) and "@ + numeral(
            self.repos_fetched as nat,
        ) + " repo(s)"@
    }

    /// The report of the refresh.
    pub fn to_string(&self) -> (text: String)
        ensures
            text@ == self.report(),
    {
        let mut text = String::from_str("Fetched ");
        push_numeral(&mut text, self.orgs_fetched as u64);
        text.append(" org(s) and ");
        push_numeral(&mut text, self.repos_fetched as u64);
        text.append(" repo(s)");
        text
    }
}

/// The workflow run found for the current branch.
#[derive(Debug, Clone)]
pub struct ActionResult {
    pub workflow_name: String,
    pub status: Option<String>,
    pub conclusion: Option<String>,
    pub branch: String,
    pub url: String,
}

/// How the state of a run is shown: as running, with its status, while it
/// has not finished; else by its conclusion, or as unknown without one.
pub open spec fn shown_state(status: Option<String>, conclusion: Option<String>) -> Seq<char> {
    if is_running(status) {
        "Running ("@ + status.unwrap()@ + seq![')']
    } else {
        match conclusion {
            Some(text) => text@,
            None => "Unknown"@,
        }
    }
}

impl ActionResult {
    /// The result for `run`.
    pub fn from_run(run: &WorkflowRun) -> (result: ActionResult)
        ensures
            result.workflow_name == run.name,
            result.status == run.status,
            result.conclusion == run.conclusion,
            result.branch == run.head_branch,
            result.url == run.html_url,
    {
        ActionResult {
            workflow_name: run.name.clone(),
            status: clone_text(&run.status),
            conclusion: clone_text(&run.conclusion),
            branch: run.head_branch.clone(),
            url: run.html_url.clone(),
        }
    }

    /// The line that reports the run: workflow, branch and state.
    pub open spec fn report(self) -> Seq<char> {
        self.workflow_name@ + " | "@ + self.branch@ + " | "@ + shown_state(
            self.status,
            self.conclusion,
        )
    }

    /// The line that reports the run.
    pub fn to_string(&self) -> (text: String)
        ensures
            text@ == self.report(),
    {
        let mut text = self.workflow_name.clone();
        text.append(" | ");
        text.append(self.branch.as_str());
        text.append(" | ");
        if status_is_running(&self.status) {
            text.append("Running (");
            match &self.status {
                Some(status) => {
                    text.append(status.as_str());
                },
                None => {},
            }
            text.push(')');
        } else {
            match &self.conclusion {
                Some(conclusion) => {
                    text.append(conclusion.as_str());
                },
                None => {
                    text.append("Unknown");
                },
            }
        }
        assert(text@ =~= self.report());
        text
    }
}

/// A copy of an optional text.
pub fn clone_text(text: &Option<String>) -> (copy: Option<String>)
    ensures
        copy == *text,
{
    match text {
        Some(inner) => Some(inner.clone()),
        None => None,
    }
}

/// The message that says that a branch has no workflow run.
pub open spec fn no_runs_message_of(branch: Seq<char>, owner: Seq<char>, name: Seq<char>) -> Seq<
    char,
> {
    "No workflow runs found for branch '"@ + branch + "' in "@ + owner + seq!['/'] + name
}

/// Computes `no_runs_message_of`.
pub fn no_runs_message(branch: &str, owner: &str, name: &str) -> (text: String)
    ensures
        text@ == no_runs_message_of(branch@, owner@, name@),
{
    let mut text = String::from_str("No workflow runs found for branch '");
    text.append(branch);
    text.append("' in ");
    text.append(owner);
    text.push('/');
    text.append(name);
    text
}

} // verus!
