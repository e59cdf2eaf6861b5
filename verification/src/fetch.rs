//! The course of a refresh: which listing is asked for next, page by page,
//! and what becomes of the pages that come back.

use crate::domain::{Org, Repo};
use crate::github_api::{
    ids_of, is_kept, is_last_page, is_record_of, kept_positions, org_from_remote, org_from_user,
    org_repos_path, org_repos_path_of, user_repos_path, user_repos_path_of, MissingOwnerError,
    RemoteOrg, RemoteRepo, RemoteUser, RepoListing, PAGE_SIZE,
};
use crate::text::same_text;
use vstd::prelude::*;

verus! {

/// The organisations of `page`, as records, behind those of `orgs`.
pub fn absorb_org_page(orgs: &mut Vec<Org>, page: Vec<RemoteOrg>) -> (last: bool)
    ensures
        last == (page.len() < PAGE_SIZE),
        final(orgs).len() == old(orgs).len() + page.len(),
        final(orgs)@.take(old(orgs).len() as int) == old(orgs)@,
        forall|i: int|
            0 <= i < page.len() ==> #[trigger] final(orgs)[old(orgs).len() + i] == (Org {
                id: page[i].id,
                login: page[i].login,
                name: page[i].name,
                avatar_url: Some(page[i].avatar_url),
                last_accessed_at: None,
                access_count: 0,
            }),
{
    let last = is_last_page(page.len());
    let ghost start = orgs@;
    let ghost given = page@;
    for remote in it: page
        invariant
            it.seq() == given,
            orgs.len() == start.len() + it.index(),
            orgs@.take(start.len() as int) == start,
            forall|i: int|
                0 <= i < it.index() ==> #[trigger] orgs[start.len() + i] == (Org {
                    id: given[i].id,
                    login: given[i].login,
                    name: given[i].name,
                    avatar_url: Some(given[i].avatar_url),
                    last_accessed_at: None,
                    access_count: 0,
                }),
    {
        let ghost held = orgs@;
        orgs.push(org_from_remote(remote));
        proof {
            assert(orgs@.take(start.len() as int) =~= start);
            assert forall|i: int| 0 <= i < it.index() implies #[trigger] orgs[start.len() + i]
                == held[start.len() + i] by {}
        }
    }
    last
}

/// The logins among the first `upto` of `orgs` that differ from `own`.
pub open spec fn other_logins(orgs: Seq<Org>, own: Seq<char>, upto: int) -> Seq<Seq<char>>
    decreases upto,
{
    if upto <= 0 {
        Seq::empty()
    } else if orgs[upto - 1].login@ == own {
        other_logins(orgs, own, upto - 1)
    } else {
        other_logins(orgs, own, upto - 1).push(orgs[upto - 1].login@)
    }
}

/// The logins of `orgs` that differ from `own_login`, in order.
fn logins_other_than(orgs: &Vec<Org>, own_login: &str) -> (logins: Vec<String>)
    ensures
        Seq::new(logins@.len(), |k: int| logins@[k]@) == other_logins(
            orgs@,
            own_login@,
            orgs.len() as int,
        ),
{
    let mut logins: Vec<String> = Vec::new();
    let mut i: usize = 0;
    while i < orgs.len()
        invariant
            i <= orgs.len(),
            logins.len() <= i,
            Seq::new(logins@.len(), |k: int| logins@[k]@) == other_logins(
                orgs@,
                own_login@,
                i as int,
            ),
        decreases orgs.len() - i,
    {
        let ghost held = Seq::new(logins@.len(), |k: int| logins@[k]@);
        if !same_text(orgs[i].login.as_str(), own_login) {
            logins.push(orgs[i].login.clone());
            assert(Seq::new(logins@.len(), |k: int| logins@[k]@) =~= held.push(
                orgs[i as int].login@,
            ));
        }
        i = i + 1;
    }
    logins
}

/// The course of listing all repositories: first those of the user, then
/// those of each organisation, each listing page by page from page one.
pub struct RepoFetch {
    listing: RepoListing,
    logins: Vec<String>,
    stage: Stage,
    page: u32,
}

/// The listing that is being read.
#[derive(Debug, Clone, Copy, PartialEq, Eq, Structural)]
enum Stage {
    User,
    Org(usize),
    Done,
}

impl RepoFetch {
    /// The repositories gathered so far.
    pub closed spec fn repos(&self) -> Seq<Repo> {
        self.listing.repos()
    }

    /// The logins of the organisations whose repositories are listed.
    pub closed spec fn logins(&self) -> Seq<Seq<char>> {
        Seq::new(self.logins@.len(), |i: int| self.logins@[i]@)
    }

    /// The listing that is being read: zero for the user's repositories,
    /// `k + 1` for those of the organisation `k`, and one more than the last
    /// of these when all has been read.
    pub closed spec fn stage(&self) -> nat {
        match self.stage {
            Stage::User => 0,
            Stage::Org(k) => (k + 1) as nat,
            Stage::Done => self.logins@.len() + 1,
        }
    }

    /// The page of the listing that is asked for next.
    pub closed spec fn page(&self) -> u32 {
        self.page
    }

    /// The listing is sound, the stage names a listing that exists, and
    /// pages count from one.
    pub closed spec fn wf(&self) -> bool {
        &&& self.listing.wf()
        &&& self.stage matches Stage::Org(k) ==> k < self.logins.len()
        &&& self.page >= 1
    }

    /// Whether all listings have been read.
    pub open spec fn is_done(&self) -> bool {
        self.stage() == self.logins().len() + 1
    }

    /// The path to ask for next, while there is one.
    pub open spec fn wanted(&self) -> Option<Seq<char>> {
        if self.stage() == 0 {
            Some(user_repos_path_of(self.page()))
        } else if self.stage() <= self.logins().len() {
            Some(org_repos_path_of(self.logins()[self.stage() - 1], self.page()))
        } else {
            None
        }
    }

    /// The start of the course: nothing gathered, the user's repositories
    /// asked for first, then those of each of `orgs` but the one that stands
    /// for the user, whose login is `own_login`.
    pub fn start(orgs: &Vec<Org>, own_login: &str) -> (fetch: RepoFetch)
        ensures
            fetch.wf(),
            fetch.repos().len() == 0,
            fetch.stage() == 0,
            fetch.page() == 1,
            fetch.logins() == other_logins(orgs@, own_login@, orgs.len() as int),
    {
        let logins = logins_other_than(orgs, own_login);
        RepoFetch { listing: RepoListing::new(), logins, stage: Stage::User, page: 1 }
    }

    /// Names the organisations anew, for a course that was started before
    /// they were known: those of `orgs` but the one that stands for the user.
    /// What was gathered stays. A course still at the user's repositories
    /// goes on there; any other goes on with the first page of the first
    /// organisation.
    pub fn then_orgs(self, orgs: &Vec<Org>, own_login: &str) -> (fetch: RepoFetch)
        requires
            self.wf(),
        ensures
            fetch.wf(),
            fetch.repos() == self.repos(),
            fetch.logins() == other_logins(orgs@, own_login@, orgs.len() as int),
            fetch.stage() == if self.stage() == 0 {
                0nat
            } else {
                1nat
            },
            fetch.page() == if self.stage() == 0 {
                self.page()
            } else {
                1u32
            },
    {
        let logins = logins_other_than(orgs, own_login);
        let at_user = match self.stage {
            Stage::User => true,
            _ => false,
        };
        if at_user {
            RepoFetch { listing: self.listing, logins, stage: Stage::User, page: self.page }
        } else if logins.len() > 0 {
            RepoFetch { listing: self.listing, logins, stage: Stage::Org(0), page: 1 }
        } else {
            RepoFetch { listing: self.listing, logins, stage: Stage::Done, page: 1 }
        }
    }

    /// The path to ask for next, or nothing when all has been read.
    pub fn next_request(&self) -> (path: Option<String>)
        requires
            self.wf(),
        ensures
            match path {
                Some(text) => self.wanted() == Some(text@),
                None => self.wanted().is_none() && self.is_done(),
            },
    {
        match self.stage {
            Stage::User => Some(user_repos_path(self.page)),
            Stage::Org(k) => Some(org_repos_path(self.logins[k].as_str(), self.page)),
            Stage::Done => None,
        }
    }

    /// Takes in the page that was asked for. Its kept entries join the
    /// repositories gathered; a page of a hundred entries is followed by the next page of
    /// the same listing, any other by the first page of the next listing. An
    /// entry without owner is an error. When all has been read, the page is
    /// dropped.
    pub fn on_page(&mut self, page: Vec<RemoteRepo>) -> (r: Result<(), MissingOwnerError>)
        requires
            old(self).wf(),
        ensures
            final(self).wf(),
            final(self).logins() == old(self).logins(),
            old(self).repos().len() <= final(self).repos().len(),
            final(self).repos().take(old(self).repos().len() as int) == old(self).repos(),
            old(self).is_done() ==> r.is_ok() && final(self).repos() == old(self).repos()
                && final(self).stage() == old(self).stage() && final(self).page() == old(
                self
            ).page(),
            !old(self).is_done() ==> (r.is_ok() <==> forall|i: int|
                is_kept(ids_of(old(self).repos()), page@, i) ==> (
                #[trigger] page[i]).owner.is_some()),
            !old(self).is_done() && r.is_ok() ==> final(self).repos().len() == old(
                self
            ).repos().len() + kept_positions(
                ids_of(old(self).repos()),
                page@,
                page.len() as int,
            ).len(),
            !old(self).is_done() ==> forall|k: int|
                old(self).repos().len() <= k < final(self).repos().len() ==> is_record_of(
                    #[trigger] final(self).repos()[k],
                    page[kept_positions(ids_of(old(self).repos()), page@, page.len() as int)[k
                        - old(self).repos().len()]],
                ),
            !old(self).is_done() && r.is_ok() ==> if page.len() >= PAGE_SIZE && old(self).page()
                < u32::MAX {
                final(self).stage() == old(self).stage() && final(self).page() == old(
                    self
                ).page() + 1
            } else {
                final(self).stage() == old(self).stage() + 1 && final(self).page() == 1
            },
            r.is_err() ==> final(self).stage() == old(self).stage() && final(self).page()
                == old(self).page(),
    {
        let next: usize = match self.stage {
            Stage::User => 0,
            Stage::Org(k) => k + 1,
            Stage::Done => {
                return Ok(());
            },
        };
        let full = !is_last_page(page.len());
        match self.listing.absorb(page) {
            Ok(()) => {},
            Err(e) => {
                return Err(e);
            },
        }
        if full && self.page < u32::MAX {
            self.page = self.page + 1;
        } else {
            self.stage = if next < self.logins.len() {
                Stage::Org(next)
            } else {
                Stage::Done
            };
            self.page = 1;
        }
        Ok(())
    }

    /// The repositories gathered.
    pub fn finish(self) -> (repos: Vec<Repo>)
        ensures
            repos@ == self.repos(),
    {
        self.listing.into_repos()
    }
}

/// The organisations of a refresh: those listed, and behind them the user
/// as an organisation of their own.
pub fn finish_orgs(orgs: Vec<Org>, user: RemoteUser) -> (all: Vec<Org>)
    ensures
        all.len() == orgs.len() + 1,
        all@.take(orgs.len() as int) == orgs@,
        all[orgs.len() as int].id == user.id,
        all[orgs.len() as int].login == user.login,
        all[orgs.len() as int].name == match user.name {
            Some(name) => Some(name),
            None => Some(user.login),
        },
        all[orgs.len() as int].avatar_url == Some(user.avatar_url),
        all[orgs.len() as int].last_accessed_at.is_none(),
        all[orgs.len() as int].access_count == 0,
{
    let mut all = orgs;
    all.push(org_from_user(user));
    assert(all@.take(orgs.len() as int) =~= orgs@);
    all
}

} // verus!
