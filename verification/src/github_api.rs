//! What the GitHub API is asked and what is made of its answers: the paths
//! of the requests, the end of a paged listing, the repositories kept from a
//! page and the workflow run that is reported.

use crate::domain::{Org, Repo};
use crate::text::{chars_of, numeral, push_numeral, same_chars};
use std::collections::HashSet;
use vstd::prelude::*;
use vstd::string::StringExecFns;

verus! {

/// Entries asked for in one page of a listing.
pub const PAGE_SIZE: usize = 100;

/// One run of a workflow.
#[derive(Debug, Clone)]
pub struct WorkflowRun {
    pub name: String,
    pub status: Option<String>,
    pub conclusion: Option<String>,
    pub head_branch: String,
    pub html_url: String,
}

/// A status that says a run has not finished.
pub open spec fn is_running_status(status: Seq<char>) -> bool {
    status == "in_progress"@ || status == "queued"@
}

/// Whether a run with this status has not finished.
pub open spec fn is_running(status: Option<String>) -> bool {
    match status {
        Some(text) => is_running_status(text@),
        None => false,
    }
}

/// Computes `is_running`.
pub fn status_is_running(status: &Option<String>) -> (r: bool)
    ensures
        r == is_running(*status),
{
    match status {
        Some(text) => {
            let chars = chars_of(text.as_str());
            same_chars(&chars, &chars_of("in_progress")) || same_chars(&chars, &chars_of("queued"))
        },
        None => false,
    }
}

/// The position of the run to report: the first that has not finished, or
/// the first of all when every run has; nothing for an empty list.
pub open spec fn reported_run(runs: Seq<WorkflowRun>) -> Option<int> {
    if runs.len() == 0 {
        None
    } else if exists|i: int| 0 <= i < runs.len() && is_running(#[trigger] runs[i].status) {
        Some(first_running(runs))
    } else {
        Some(0)
    }
}

/// The position of the first run that has not finished.
pub open spec fn first_running(runs: Seq<WorkflowRun>) -> int {
    choose|i: int|
        0 <= i < runs.len() && is_running(#[trigger] runs[i].status) && forall|k: int|
            0 <= k < i ==> !is_running(#[trigger] runs[k].status)
}

/// Computes `reported_run` for runs listed newest first.
pub fn select_run(runs: &Vec<WorkflowRun>) -> (at: Option<usize>)
    ensures
        match at {
            Some(i) => reported_run(runs@) == Some(i as int) && i < runs.len(),
            None => reported_run(runs@).is_none(),
        },
{
    if runs.len() == 0 {
        return None;
    }
    let mut i: usize = 0;
    while i < runs.len()
        invariant
            i <= runs.len(),
            forall|k: int| 0 <= k < i ==> !is_running(#[trigger] runs[k].status),
        decreases runs.len() - i,
    {
        if status_is_running(&runs[i].status) {
            proof {
                let found = first_running(runs@);
                assert(is_running(runs[i as int].status));
                assert(found == i) by {
                    if found < i {
                        assert(!is_running(runs[found].status));
                    }
                    if found > i {
                        assert(!is_running(runs[i as int].status));
                    }
                }
            }
            return Some(i);
        }
        i = i + 1;
    }
    Some(0)
}

/// Whether a page with `count` entries is the last of its listing.
pub fn is_last_page(count: usize) -> (last: bool)
    ensures
        last == (count < PAGE_SIZE),
{
    count < PAGE_SIZE
}

/// The path that lists page `page` of the user's organisations.
pub open spec fn user_orgs_path_of(page: u32) -> Seq<char> {
    "/user/orgs?page="@ + numeral(page as nat) + "&per_page=100"@
}

/// Computes `user_orgs_path_of`.
pub fn user_orgs_path(page: u32) -> (path: String)
    ensures
        path@ == user_orgs_path_of(page),
{
    let mut path = String::from_str("/user/orgs?page=");
    push_numeral(&mut path, page as u64);
    path.append("&per_page=100");
    path
}

/// The path that lists page `page` of the user's repositories.
pub open spec fn user_repos_path_of(page: u32) -> Seq<char> {
    "/user/repos?page="@ + numeral(page as nat) + "&per_page=100&sort=updated&type=all"@
}

/// Computes `user_repos_path_of`.
pub fn user_repos_path(page: u32) -> (path: String)
    ensures
        path@ == user_repos_path_of(page),
{
    let mut path = String::from_str("/user/repos?page=");
    push_numeral(&mut path, page as u64);
    path.append("&per_page=100&sort=updated&type=all");
    path
}

/// The path that lists page `page` of the repositories of `org`.
pub open spec fn org_repos_path_of(org: Seq<char>, page: u32) -> Seq<char> {
    "/orgs/"@ + org + "/repos?page="@ + numeral(page as nat)
        + "&per_page=100&sort=updated&type=all"@
}

/// Computes `org_repos_path_of`.
pub fn org_repos_path(org: &str, page: u32) -> (path: String)
    ensures
        path@ == org_repos_path_of(org@, page),
{
    let mut path = String::from_str("/orgs/");
    path.append(org);
    path.append("/repos?page=");
    push_numeral(&mut path, page as u64);
    path.append("&per_page=100&sort=updated&type=all");
    path
}

/// The path that lists the workflow runs of a repository, of one branch
/// where `branch` names one.
pub open spec fn workflow_runs_path_of(
    owner: Seq<char>,
    repo: Seq<char>,
    branch: Option<Seq<char>>,
) -> Seq<char> {
    let all = "/repos/"@ + owner + seq!['/'] + repo + "/actions/runs"@;
    match branch {
        Some(name) => all + "?branch="@ + name,
        None => all,
    }
}

/// Computes `workflow_runs_path_of`.
pub fn workflow_runs_path(owner: &str, repo: &str, branch: Option<&str>) -> (path: String)
    ensures
        path@ == workflow_runs_path_of(
            owner@,
            repo@,
            match branch {
                Some(name) => Some(name@),
                None => None,
            },
        ),
{
    let mut path = String::from_str("/repos/");
    path.append(owner);
    path.push('/');
    path.append(repo);
    path.append("/actions/runs");
    match branch {
        Some(name) => {
            path.append("?branch=");
            path.append(name);
        },
        None => {},
    }
    path
}

/// The owner of a repository, as the API names it.
#[derive(Debug, Clone)]
pub struct RemoteOwner {
    pub id: i64,
    pub login: String,
}

/// A repository, as the API lists it.
#[derive(Debug, Clone)]
pub struct RemoteRepo {
    pub id: i64,
    pub name: String,
    pub full_name: Option<String>,
    pub owner: Option<RemoteOwner>,
    pub private: Option<bool>,
    pub description: Option<String>,
    pub language: Option<String>,
    pub default_branch: Option<String>,
    pub archived: Option<bool>,
}

/// An organisation, as the API lists it.
#[derive(Debug, Clone)]
pub struct RemoteOrg {
    pub id: i64,
    pub login: String,
    pub name: Option<String>,
    pub avatar_url: String,
}

/// The user that the token belongs to, as the API names them.
#[derive(Debug, Clone)]
pub struct RemoteUser {
    pub id: i64,
    pub login: String,
    pub name: Option<String>,
    pub avatar_url: String,
}

/// A repository in a listing names no owner.
#[derive(Debug, Clone, Copy, PartialEq, Eq, Structural)]
pub struct MissingOwnerError;

impl MissingOwnerError {
    /// The message of the error.
    pub fn to_string(&self) -> (text: String)
        ensures
            text@ == "Repo missing owner"@,
    {
        String::from_str("Repo missing owner")
    }
}

/// The record of an organisation from the API: never opened, with its
/// picture.
pub fn org_from_remote(remote: RemoteOrg) -> (org: Org)
    ensures
        org == (Org {
            id: remote.id,
            login: remote.login,
            name: remote.name,
            avatar_url: Some(remote.avatar_url),
            last_accessed_at: None,
            access_count: 0,
        }),
{
    Org::new(remote.id, remote.login, remote.name, Some(remote.avatar_url))
}

/// The user listed as an organisation of their own: under their login, and
/// named by their name, or by their login where they gave no name.
pub fn org_from_user(user: RemoteUser) -> (org: Org)
    ensures
        org.id == user.id,
        org.login == user.login,
        org.name == match user.name {
            Some(name) => Some(name),
            None => Some(user.login),
        },
        org.avatar_url == Some(user.avatar_url),
        org.last_accessed_at.is_none(),
        org.access_count == 0,
{
    let name = match user.name {
        Some(name) => name,
        None => user.login.clone(),
    };
    Org::new(user.id, user.login, Some(name), Some(user.avatar_url))
}

/// Whether the API marks the repository as archived.
pub open spec fn is_archived(remote: RemoteRepo) -> bool {
    remote.archived == Some(true)
}

/// The full name of a repository: the one the API gives, or owner and name
/// with a slash between them where it gives none.
pub open spec fn full_name_of(remote: RemoteRepo) -> Seq<char> {
    match remote.full_name {
        Some(full) => full@,
        None => remote.owner.unwrap().login@ + seq!['/'] + remote.name@,
    }
}

/// `repo` is the record of `remote`, which names its owner: never opened,
/// and private only where the API says so.
pub open spec fn is_record_of(repo: Repo, remote: RemoteRepo) -> bool {
    &&& remote.owner.is_some()
    &&& repo.id == remote.id
    &&& repo.name@ == remote.name@
    &&& repo.full_name@ == full_name_of(remote)
    &&& repo.owner_id == remote.owner.unwrap().id
    &&& repo.owner_login == remote.owner.unwrap().login
    &&& repo.private == (remote.private == Some(true))
    &&& repo.description == remote.description
    &&& repo.language == remote.language
    &&& repo.default_branch == remote.default_branch
    &&& repo.last_accessed_at.is_none()
    &&& repo.access_count == 0
}

/// The record of `remote`, or an error where it names no owner.
pub fn repo_from_remote(remote: RemoteRepo) -> (r: Result<Repo, MissingOwnerError>)
    ensures
        r.is_ok() == remote.owner.is_some(),
        r matches Ok(repo) ==> is_record_of(repo, remote),
{
    let owner = match remote.owner {
        Some(owner) => owner,
        None => {
            return Err(MissingOwnerError);
        },
    };
    let full_name = match remote.full_name {
        Some(full) => full,
        None => {
            let mut built = owner.login.clone();
            built.push('/');
            built.append(remote.name.as_str());
            assert(built@ =~= owner.login@ + seq!['/'] + remote.name@);
            built
        },
    };
    let private = match remote.private {
        Some(flag) => flag,
        None => false,
    };
    Ok(
        Repo::new(
            remote.id,
            remote.name,
            full_name,
            owner.id,
            owner.login,
            private,
            remote.description,
            remote.language,
            remote.default_branch,
        ),
    )
}

/// The identifiers of `repos`.
pub open spec fn ids_of(repos: Seq<Repo>) -> Set<i64> {
    Set::new(|id: i64| exists|k: int| 0 <= k < repos.len() && (#[trigger] repos[k]).id == id)
}

/// Entry `i` of `page` is kept by a listing that holds the identifiers
/// `before`: it is not archived, and neither the listing nor an earlier entry
/// of the page that is not archived has its identifier.
pub open spec fn is_kept(before: Set<i64>, page: Seq<RemoteRepo>, i: int) -> bool {
    &&& 0 <= i < page.len()
    &&& !is_archived(page[i])
    &&& !before.contains(page[i].id)
    &&& forall|j: int| 0 <= j < i ==> is_archived(#[trigger] page[j]) || page[j].id != page[i].id
}

/// The positions of the entries among the first `upto` of `page` that are
/// kept, in order.
pub open spec fn kept_positions(before: Set<i64>, page: Seq<RemoteRepo>, upto: int) -> Seq<int>
    decreases upto,
{
    if upto <= 0 {
        Seq::empty()
    } else if is_kept(before, page, upto - 1) {
        kept_positions(before, page, upto - 1).push(upto - 1)
    } else {
        kept_positions(before, page, upto - 1)
    }
}

/// The kept positions among fewer entries begin those among more.
pub proof fn lemma_kept_positions_grow(
    before: Set<i64>,
    page: Seq<RemoteRepo>,
    fewer: int,
    more: int,
)
    requires
        0 <= fewer <= more <= page.len(),
    ensures
        kept_positions(before, page, fewer).len() <= kept_positions(before, page, more).len(),
        kept_positions(before, page, more).take(
            kept_positions(before, page, fewer).len() as int,
        ) == kept_positions(before, page, fewer),
        forall|k: int|
            0 <= k < kept_positions(before, page, more).len() ==> 0 <= (#[trigger] kept_positions(
                before,
                page,
                more,
            )[k]) < more,
    decreases more - fewer,
{
    if fewer < more {
        lemma_kept_positions_grow(before, page, fewer, more - 1);
        let short = kept_positions(before, page, fewer);
        let nearly = kept_positions(before, page, more - 1);
        let all = kept_positions(before, page, more);
        assert(all.take(short.len() as int) =~= nearly.take(short.len() as int));
    } else {
        lemma_kept_positions_in_range(before, page, more);
        assert(kept_positions(before, page, more).take(
            kept_positions(before, page, fewer).len() as int,
        ) =~= kept_positions(before, page, fewer));
    }
}

/// Kept positions among the first `upto` entries lie below `upto`.
pub proof fn lemma_kept_positions_in_range(before: Set<i64>, page: Seq<RemoteRepo>, upto: int)
    requires
        0 <= upto <= page.len(),
    ensures
        forall|k: int|
            0 <= k < kept_positions(before, page, upto).len() ==> 0 <= (#[trigger] kept_positions(
                before,
                page,
                upto,
            )[k]) < upto,
    decreases upto,
{
    if upto > 0 {
        lemma_kept_positions_in_range(before, page, upto - 1);
        let earlier = kept_positions(before, page, upto - 1);
        let now = kept_positions(before, page, upto);
        assert forall|k: int| 0 <= k < now.len() implies 0 <= (#[trigger] now[k]) < upto by {
            if k < earlier.len() {
                assert(now[k] == earlier[k]);
            }
        }
    }
}

/// `seen` holds the identifiers in `before` and those of the entries among
/// the first `upto` of `page` that are not archived.
pub open spec fn holds_listed(
    seen: Set<i64>,
    before: Set<i64>,
    page: Seq<RemoteRepo>,
    upto: int,
) -> bool {
    forall|id: i64|
        seen.contains(id) <==> before.contains(id) || exists|j: int|
            0 <= j < upto && !is_archived(#[trigger] page[j]) && page[j].id == id
}

/// The repositories gathered from the pages of several listings, each
/// repository once.
pub struct RepoListing {
    repos: Vec<Repo>,
    seen: HashSet<i64>,
}

impl RepoListing {
    /// The repositories gathered so far, in the order in which they came.
    pub closed spec fn repos(&self) -> Seq<Repo> {
        self.repos@
    }

    /// The listing knows the identifiers of its repositories.
    pub closed spec fn wf(&self) -> bool {
        self.seen@ == ids_of(self.repos@)
    }

    /// An empty listing.
    pub fn new() -> (listing: RepoListing)
        ensures
            listing.wf(),
            listing.repos().len() == 0,
    {
        broadcast use vstd::std_specs::hash::group_hash_axioms;

        let listing = RepoListing { repos: Vec::new(), seen: HashSet::new() };
        assert(listing.seen@ =~= ids_of(listing.repos@));
        listing
    }

    /// Adds the entries of `page` that are kept, in order, up to the first
    /// of them that names no owner; that one is an error.
    pub fn absorb(&mut self, page: Vec<RemoteRepo>) -> (r: Result<(), MissingOwnerError>)
        requires
            old(self).wf(),
        ensures
            final(self).wf(),
            r.is_ok() <==> forall|i: int|
                is_kept(ids_of(old(self).repos()), page@, i) ==> (
                #[trigger] page[i]).owner.is_some(),
            old(self).repos().len() <= final(self).repos().len(),
            final(self).repos().take(old(self).repos().len() as int) == old(self).repos(),
            r.is_ok() ==> final(self).repos().len() == old(self).repos().len() + kept_positions(
                ids_of(old(self).repos()),
                page@,
                page.len() as int,
            ).len(),
            forall|k: int|
                old(self).repos().len() <= k < final(self).repos().len() ==> is_record_of(
                    #[trigger] final(self).repos()[k],
                    page[kept_positions(ids_of(old(self).repos()), page@, page.len() as int)[k
                        - old(self).repos().len()]],
                ),
    {
        broadcast use vstd::std_specs::hash::group_hash_axioms;

        let ghost before = ids_of(self.repos@);
        let ghost start = self.repos@;
        let ghost given = page@;
        assert(holds_listed(self.seen@, before, given, 0));
        for remote in it: page
            invariant
                it.seq() == given,
                given == page@,
                start == old(self).repos@,
                before == ids_of(start),
                self.seen@ == ids_of(self.repos@),
                start.len() <= self.repos.len(),
                self.repos@.take(start.len() as int) == start,
                holds_listed(self.seen@, before, given, it.index() as int),
                forall|i: int|
                    0 <= i < it.index() && is_kept(before, given, i) ==> (
                    #[trigger] given[i]).owner.is_some(),
                self.repos.len() == start.len() + kept_positions(
                    before,
                    given,
                    it.index() as int,
                ).len(),
                forall|k: int|
                    start.len() <= k < self.repos.len() ==> is_record_of(
                        #[trigger] self.repos[k],
                        given[kept_positions(before, given, it.index() as int)[k - start.len()]],
                    ),
        {
            let ghost at = it.index() as int;
            let ghost held = self.repos@;
            let ghost positions = kept_positions(before, given, at);
            let ghost known = self.seen@;
            assert(kept_positions(before, given, at + 1) == if is_kept(before, given, at) {
                positions.push(at)
            } else {
                positions
            });
            let archived = match remote.archived {
                Some(flag) => flag,
                None => false,
            };
            if !archived && !self.seen.contains(&remote.id) {
                assert(is_kept(before, given, at)) by {
                    assert forall|j: int| 0 <= j < at implies is_archived(#[trigger] given[j])
                        || given[j].id != given[at].id by {
                        if !is_archived(given[j]) && given[j].id == given[at].id {
                            assert(self.seen@.contains(given[at].id));
                        }
                    }
                }
                let id = remote.id;
                match repo_from_remote(remote) {
                    Ok(repo) => {
                        self.seen.insert(id);
                        self.repos.push(repo);
                        proof {
                            assert(self.repos@.take(start.len() as int) =~= start);
                            assert(self.seen@ =~= ids_of(self.repos@)) by {
                                assert forall|other: i64|
                                    self.seen@.contains(other) <==> ids_of(self.repos@).contains(
                                        other,
                                    ) by {
                                    if ids_of(held).contains(other) {
                                        let k = choose|k: int|
                                            0 <= k < held.len() && (#[trigger] held[k]).id == other;
                                        assert(self.repos@[k].id == other);
                                    }
                                    if other == id {
                                        assert(self.repos@[held.len() as int].id == id);
                                    }
                                    if ids_of(self.repos@).contains(other) {
                                        let k = choose|k: int|
                                            0 <= k < self.repos@.len() && (
                                            #[trigger] self.repos@[k]).id == other;
                                        if k < held.len() {
                                            assert(held[k].id == other);
                                        }
                                    }
                                }
                            }
                            assert forall|k: int|
                                start.len() <= k < self.repos.len() implies is_record_of(
                                #[trigger] self.repos[k],
                                given[positions.push(at)[k - start.len()]],
                            ) by {
                                if k < held.len() {
                                    assert(self.repos[k] == held[k]);
                                }
                            }
                            assert(holds_listed(self.seen@, before, given, at + 1)) by {
                                assert forall|other: i64|
                                    self.seen@.contains(other) <==> before.contains(other)
                                        || exists|j: int|
                                        0 <= j < at + 1 && !is_archived(#[trigger] given[j])
                                            && given[j].id == other by {
                                    if other == id {
                                        assert(!is_archived(given[at]) && given[at].id == other);
                                    } else if known.contains(other) && !before.contains(other) {
                                        let j = choose|j: int|
                                            0 <= j < at && !is_archived(#[trigger] given[j])
                                                && given[j].id == other;
                                        assert(!is_archived(given[j]) && given[j].id == other);
                                    }
                                    if exists|j: int|
                                        0 <= j < at + 1 && !is_archived(#[trigger] given[j])
                                            && given[j].id == other {
                                        let j = choose|j: int|
                                            0 <= j < at + 1 && !is_archived(#[trigger] given[j])
                                                && given[j].id == other;
                                        if j < at {
                                            assert(!is_archived(given[j]) && given[j].id == other);
                                            assert(known.contains(other));
                                        }
                                    }
                                }
                            }
                        }
                    },
                    Err(e) => {
                        proof {
                            assert(given[at].owner.is_none());
                            assert(is_kept(before, given, at));
                            assert(self.repos@ == held);
                            assert(start.len() <= held.len());
                            assert(old(self).repos() == start);
                            lemma_kept_positions_grow(before, given, at, given.len() as int);
                        }
                        return Err(e);
                    },
                }
            } else {
                assert(!is_kept(before, given, at)) by {
                    if !archived {
                        let id = given[at].id;
                        if !before.contains(id) {
                            let j = choose|j: int|
                                0 <= j < at && !is_archived(#[trigger] given[j]) && given[j].id
                                    == id;
                            assert(!is_archived(given[j]) && given[j].id == given[at].id);
                        }
                    }
                }
                assert(holds_listed(self.seen@, before, given, at + 1)) by {
                    assert forall|other: i64|
                        self.seen@.contains(other) <==> before.contains(other) || exists|j: int|
                            0 <= j < at + 1 && !is_archived(#[trigger] given[j]) && given[j].id
                                == other by {
                        if known.contains(other) && !before.contains(other) {
                            let j = choose|j: int|
                                0 <= j < at && !is_archived(#[trigger] given[j]) && given[j].id
                                    == other;
                            assert(!is_archived(given[j]) && given[j].id == other);
                        }
                        if exists|j: int|
                            0 <= j < at + 1 && !is_archived(#[trigger] given[j]) && given[j].id
                                == other {
                            let j = choose|j: int|
                                0 <= j < at + 1 && !is_archived(#[trigger] given[j]) && given[j].id
                                    == other;
                            if j < at {
                                assert(!is_archived(given[j]) && given[j].id == other);
                                assert(known.contains(other));
                            } else {
                                assert(known.contains(other));
                            }
                        }
                    }
                }
            }
        }
        proof {
            lemma_kept_positions_grow(before, given, given.len() as int, given.len() as int);
        }
        Ok(())
    }

    /// The repositories gathered.
    pub fn into_repos(self) -> (repos: Vec<Repo>)
        ensures
            repos@ == self.repos(),
    {
        self.repos
    }
}

} // verus!
