//! The GitHub repository behind a git checkout: its address as the `origin`
//! remote gives it, and the pages derived from it.

use crate::text::{chars_of, ends_with, has_prefix, has_suffix, starts_with, string_of};
use vstd::prelude::*;
use vstd::string::StringExecFns;

verus! {

/// A repository on GitHub, by owner and name.
#[derive(Debug, Clone)]
pub struct GitHubRepo {
    pub owner: String,
    pub name: String,
}

/// The address of the repository page of `owner` and `name`.
pub open spec fn base_url_of(owner: Seq<char>, name: Seq<char>) -> Seq<char> {
    "https://github.com/"@ + owner + seq!['/'] + name
}

impl GitHubRepo {
    /// The address of the repository page.
    pub fn base_url(&self) -> (url: String)
        ensures
            url@ == base_url_of(self.owner@, self.name@),
    {
        let mut url = String::from_str("https://github.com/");
        url.append(self.owner.as_str());
        url.push('/');
        url.append(self.name.as_str());
        assert(url@ =~= base_url_of(self.owner@, self.name@));
        url
    }

    /// The address of the page `page` of the repository.
    pub fn url_for(&self, page: &str) -> (url: String)
        ensures
            url@ == base_url_of(self.owner@, self.name@) + seq!['/'] + page@,
    {
        let mut url = self.base_url();
        url.push('/');
        url.append(page);
        assert(url@ =~= base_url_of(self.owner@, self.name@) + seq!['/'] + page@);
        url
    }
}

/// Why no GitHub repository was found for the working directory.
#[derive(Debug, Clone, Copy, PartialEq, Eq, Structural)]
pub enum GitRepoError {
    NotInGitRepo,
    NoRemoteFound,
    RemoteNotGitHub,
}

impl GitRepoError {
    /// The message of the error.
    pub open spec fn message(self) -> Seq<char> {
        match self {
            GitRepoError::NotInGitRepo => "Not currently in a git repository"@,
            GitRepoError::NoRemoteFound => {
                "Git repository does not have an 'origin' remote configured"@
            },
            GitRepoError::RemoteNotGitHub => "The 'origin' remote is not a GitHub repository"@,
        }
    }

    /// The message of the error.
    pub fn to_string(&self) -> (text: String)
        ensures
            text@ == self.message(),
    {
        match self {
            GitRepoError::NotInGitRepo => String::from_str("Not currently in a git repository"),
            GitRepoError::NoRemoteFound => String::from_str(
                "Git repository does not have an 'origin' remote configured",
            ),
            GitRepoError::RemoteNotGitHub => String::from_str(
                "The 'origin' remote is not a GitHub repository",
            ),
        }
    }
}

/// The part of a remote address behind the host, for the three forms of
/// address that name GitHub.
pub open spec fn repo_path(url: Seq<char>) -> Option<Seq<char>> {
    if has_prefix(url, "git@github.com:"@) {
        Some(url.skip("git@github.com:"@.len() as int))
    } else if has_prefix(url, "https://github.com/"@) {
        Some(url.skip("https://github.com/"@.len() as int))
    } else if has_prefix(url, "http://github.com/"@) {
        Some(url.skip("http://github.com/"@.len() as int))
    } else {
        None
    }
}

/// `path` without a trailing `.git`.
pub open spec fn without_git_suffix(path: Seq<char>) -> Seq<char> {
    if has_suffix(path, ".git"@) {
        path.take(path.len() - ".git"@.len())
    } else {
        path
    }
}

/// `path` holds exactly one slash, at `at`.
pub open spec fn only_slash_at(path: Seq<char>, at: int) -> bool {
    &&& 0 <= at < path.len()
    &&& forall|i: int| 0 <= i < path.len() ==> (#[trigger] path[i] == '/' <==> i == at)
}

/// The position of the slash in a path that holds exactly one.
pub open spec fn slash_position(path: Seq<char>) -> int {
    choose|at: int| only_slash_at(path, at)
}

/// The two parts of a path that holds exactly one slash: what stands before
/// the slash and what stands behind it. Either part may be empty.
pub open spec fn split_path(path: Seq<char>) -> Option<(Seq<char>, Seq<char>)> {
    if exists|at: int| only_slash_at(path, at) {
        Some((path.take(slash_position(path)), path.skip(slash_position(path) + 1)))
    } else {
        None
    }
}

/// The owner and the name that a remote address gives: the two parts of its
/// path, once a trailing `.git` is taken off.
pub open spec fn parsed_remote(url: Seq<char>) -> Option<(Seq<char>, Seq<char>)> {
    match repo_path(url) {
        Some(full) => split_path(without_git_suffix(full)),
        None => None,
    }
}

/// Finds the slash in `path[..end]` if there is exactly one.
fn single_slash(path: &Vec<char>, end: usize) -> (at: Option<usize>)
    requires
        end <= path.len(),
    ensures
        match at {
            Some(at) => only_slash_at(path@.take(end as int), at as int),
            None => !exists|at: int| only_slash_at(path@.take(end as int), at),
        },
{
    let ghost part = path@.take(end as int);
    let mut found: Option<usize> = None;
    let mut i: usize = 0;
    while i < end
        invariant
            i <= end <= path.len(),
            part == path@.take(end as int),
            match found {
                Some(at) => at < i && forall|k: int|
                    0 <= k < i ==> (#[trigger] part[k] == '/' <==> k == at),
                None => forall|k: int| 0 <= k < i ==> #[trigger] part[k] != '/',
            },
        decreases end - i,
    {
        if path[i] == '/' {
            match found {
                Some(at) => {
                    proof {
                        assert forall|other: int| !only_slash_at(part, other) by {
                            if only_slash_at(part, other) {
                                assert(part[at as int] == '/');
                                assert(part[i as int] == '/');
                            }
                        }
                    }
                    return None;
                },
                None => {
                    found = Some(i);
                },
            }
        }
        i = i + 1;
    }
    proof {
        if found.is_none() {
            assert forall|other: int| !only_slash_at(part, other) by {
                if only_slash_at(part, other) {
                    assert(part[other] == '/');
                }
            }
        }
    }
    found
}

/// Reads owner and name from the address of a remote. The address must name
/// GitHub over SSH, HTTPS or HTTP and hold exactly owner and name behind the
/// host; a trailing `.git` is ignored.
pub fn parse_github_url(url: &str) -> (r: Result<GitHubRepo, GitRepoError>)
    ensures
        match r {
            Ok(repo) => parsed_remote(url@) == Some((repo.owner@, repo.name@)),
            Err(e) => e == GitRepoError::RemoteNotGitHub && parsed_remote(url@).is_none(),
        },
{
    let text = chars_of(url);
    let ssh = chars_of("git@github.com:");
    let https = chars_of("https://github.com/");
    let http = chars_of("http://github.com/");
    let start = if starts_with(&text, &ssh) {
        ssh.len()
    } else if starts_with(&text, &https) {
        https.len()
    } else if starts_with(&text, &http) {
        http.len()
    } else {
        return Err(GitRepoError::RemoteNotGitHub);
    };
    let path = string_chars(&text, start);
    let ghost full = url@.skip(start as int);
    let suffix = chars_of(".git");
    let end = if ends_with(&path, &suffix) {
        path.len() - suffix.len()
    } else {
        path.len()
    };
    assert(path@.take(end as int) =~= without_git_suffix(full));
    match single_slash(&path, end) {
        Some(at) => {
            let ghost trimmed = path@.take(end as int);
            let owner = string_of(&path, 0, at);
            let name = string_of(&path, at + 1, end);
            proof {
                assert(trimmed[at as int] == '/');
                assert(slash_position(trimmed) == at);
                assert(owner@ =~= trimmed.take(at as int));
                assert(name@ =~= trimmed.skip(at + 1));
            }
            Ok(GitHubRepo { owner, name })
        },
        None => Err(GitRepoError::RemoteNotGitHub),
    }
}

/// The characters of `text` from `from` on.
fn string_chars(text: &Vec<char>, from: usize) -> (rest: Vec<char>)
    requires
        from <= text.len(),
    ensures
        rest@ == text@.skip(from as int),
{
    let mut rest: Vec<char> = Vec::new();
    let mut i: usize = from;
    while i < text.len()
        invariant
            from <= i <= text.len(),
            rest@ == text@.subrange(from as int, i as int),
        decreases text.len() - i,
    {
        rest.push(text[i]);
        assert(text@.subrange(from as int, i + 1) =~= text@.subrange(from as int, i as int).push(
            text[i as int],
        ));
        i = i + 1;
    }
    assert(text@.subrange(from as int, text.len() as int) =~= text@.skip(from as int));
    rest
}

/// What looking for the `origin` remote of the checkout around the working
/// directory gave.
#[derive(Debug, Clone)]
pub enum OriginLookup {
    /// The working directory lies in no git repository.
    NoRepository,
    /// The repository has no remote named `origin`.
    NoOrigin,
    /// The remote has no address that is text.
    NoUrl,
    /// The address of the remote.
    Url(String),
}

/// The GitHub repository that the `origin` remote names.
pub fn get_github_repo(origin: &OriginLookup) -> (r: Result<GitHubRepo, GitRepoError>)
    ensures
        match *origin {
            OriginLookup::NoRepository => r == Err::<GitHubRepo, GitRepoError>(
                GitRepoError::NotInGitRepo,
            ),
            OriginLookup::NoOrigin => r == Err::<GitHubRepo, GitRepoError>(
                GitRepoError::NoRemoteFound,
            ),
            OriginLookup::NoUrl => r == Err::<GitHubRepo, GitRepoError>(
                GitRepoError::NoRemoteFound,
            ),
            OriginLookup::Url(url) => match r {
                Ok(repo) => parsed_remote(url@) == Some((repo.owner@, repo.name@)),
                Err(e) => e == GitRepoError::RemoteNotGitHub && parsed_remote(url@).is_none(),
            },
        },
{
    match origin {
        OriginLookup::NoRepository => Err(GitRepoError::NotInGitRepo),
        OriginLookup::NoOrigin => Err(GitRepoError::NoRemoteFound),
        OriginLookup::NoUrl => Err(GitRepoError::NoRemoteFound),
        OriginLookup::Url(url) => parse_github_url(url.as_str()),
    }
}

/// What looking for the checked-out branch gave.
#[derive(Debug, Clone)]
pub enum HeadLookup {
    /// The working directory lies in no git repository.
    NoRepository,
    /// The repository has no readable `HEAD`.
    NoHead,
    /// `HEAD` has no short name that is text.
    NoShorthand,
    /// The short name of `HEAD`.
    Shorthand(String),
}

/// Why no current branch was found.
#[derive(Debug, Clone, Copy, PartialEq, Eq, Structural)]
pub enum BranchError {
    NotInGitRepo,
    NoHead,
    NotABranch,
}

impl BranchError {
    /// The message of the error.
    pub open spec fn message(self) -> Seq<char> {
        match self {
            BranchError::NotInGitRepo => GitRepoError::NotInGitRepo.message(),
            BranchError::NoHead => "Failed to get HEAD reference"@,
            BranchError::NotABranch => "HEAD is not a branch"@,
        }
    }

    /// The message of the error.
    pub fn to_string(&self) -> (text: String)
        ensures
            text@ == self.message(),
    {
        match self {
            BranchError::NotInGitRepo => GitRepoError::NotInGitRepo.to_string(),
            BranchError::NoHead => String::from_str("Failed to get HEAD reference"),
            BranchError::NotABranch => String::from_str("HEAD is not a branch"),
        }
    }
}

/// The name of the checked-out branch.
pub fn get_current_branch(head: &HeadLookup) -> (r: Result<String, BranchError>)
    ensures
        match *head {
            HeadLookup::NoRepository => r == Err::<String, BranchError>(BranchError::NotInGitRepo),
            HeadLookup::NoHead => r == Err::<String, BranchError>(BranchError::NoHead),
            HeadLookup::NoShorthand => r == Err::<String, BranchError>(BranchError::NotABranch),
            HeadLookup::Shorthand(name) => r == Ok::<String, BranchError>(name),
        },
{
    match head {
        HeadLookup::NoRepository => Err(BranchError::NotInGitRepo),
        HeadLookup::NoHead => Err(BranchError::NoHead),
        HeadLookup::NoShorthand => Err(BranchError::NotABranch),
        HeadLookup::Shorthand(name) => Ok(name.clone()),
    }
}

} // verus!
