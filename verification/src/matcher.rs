//! The items that can be found, and the matcher that holds them: it feeds
//! their names to the match engine and ranks what the engine has matched.

use crate::clock::unix_seconds_now;
use crate::domain::{usage_score, Org, Repo};
use crate::engine::{all_matches, key_views, MatchEngine, MatchResult};
use crate::ranking::{
    compose_key, distinct_handles, is_ranking_of, keys_wf, lemma_order_key_wf,
    lemma_ranking_exists, lemma_ranking_same_members, order_key_of, rank, ranking_of, OrderKey,
    Ranked, MAX_USAGE_BONUS,
};
use vstd::prelude::*;
use vstd::string::StringExecFns;

verus! {

/// How long one tick may work on the scan, in milliseconds.
pub const TICK_BUDGET_MS: u64 = 100;

/// The address of the page of `path` on GitHub.
pub open spec fn github_url(path: Seq<char>) -> Seq<char> {
    "https://github.com/"@ + path
}

/// The name under which an organisation is listed: its login and a slash.
pub open spec fn org_key(login: Seq<char>) -> Seq<char> {
    login.push('/')
}

/// An entry that can be matched: its name, the record behind it and the
/// address that opening it leads to.
#[derive(Debug, Clone)]
pub struct RepoItem {
    pub full_name: String,
    pub repo: Repo,
    pub url: String,
}

impl RepoItem {
    /// The name is the record's full name and the address is derived from it.
    pub open spec fn wf(self) -> bool {
        &&& self.full_name@ == self.repo.full_name@
        &&& self.url@ == github_url(self.repo.full_name@)
    }

    /// The item for `repo`.
    pub fn new(repo: Repo) -> (item: RepoItem)
        ensures
            item.repo == repo,
            item.wf(),
    {
        let url = String::from_str("https://github.com/").concat(repo.full_name.as_str());
        let full_name = repo.full_name.clone();
        RepoItem { full_name, repo, url }
    }
}

/// `repo` is the record that stands for the organisation `org` in the list.
pub open spec fn stands_for(repo: Repo, org: Org) -> bool {
    &&& repo.id == org.id
    &&& repo.name@.len() == 0
    &&& repo.full_name@ == org_key(org.login@)
    &&& repo.owner_id == org.id
    &&& repo.owner_login@ == org.login@
    &&& !repo.private
    &&& repo.description.is_none()
    &&& repo.language.is_none()
    &&& repo.default_branch.is_none()
    &&& repo.last_accessed_at == org.last_accessed_at
    &&& repo.access_count == org.access_count
}

/// The record that stands for `org` in the list.
pub fn org_record(org: &Org) -> (repo: Repo)
    ensures
        stands_for(repo, *org),
{
    let mut full_name = org.login.clone();
    full_name.append("/");
    proof {
        reveal_strlit("/");
        assert("/"@ =~= seq!['/']);
        assert(full_name@ =~= org_key(org.login@));
    }
    Repo {
        id: org.id,
        name: String::new(),
        full_name,
        owner_id: org.id,
        owner_login: org.login.clone(),
        private: false,
        description: None,
        language: None,
        default_branch: None,
        last_accessed_at: org.last_accessed_at,
        access_count: org.access_count,
    }
}

/// The names of `items`, by handle.
pub open spec fn names_of(items: Seq<RepoItem>) -> Seq<Seq<char>> {
    Seq::new(items.len(), |i: int| items[i].full_name@)
}

/// The order key of the item behind a match, at the instant `now`.
pub open spec fn entry_of(items: Seq<RepoItem>, now: i64, found: MatchResult) -> Ranked {
    let repo = items[found.handle as int].repo;
    Ranked {
        handle: found.handle,
        key: order_key_of(
            found.raw_score,
            usage_score(repo.access_count, repo.last_accessed_at, now),
        ),
    }
}

/// The entries to rank for a result of the engine.
pub open spec fn entries_of(items: Seq<RepoItem>, now: i64, results: Seq<MatchResult>) -> Seq<
    Ranked,
> {
    Seq::new(results.len(), |k: int| entry_of(items, now, results[k]))
}

/// The order key of `item` for a match of quality `raw_score`, at the
/// instant `now`: the raw score plus the usage bonus.
pub fn order_key(item: &RepoItem, raw_score: u16, now: i64) -> (key: OrderKey)
    ensures
        key == order_key_of(
            raw_score,
            usage_score(item.repo.access_count, item.repo.last_accessed_at, now),
        ),
        key.wf(),
        raw_score * key.denominator <= key.numerator <= (raw_score + MAX_USAGE_BONUS)
            * key.denominator,
{
    compose_key(raw_score, item.repo.score_at(now))
}

/// The matcher: the items, the engine seeded with their names, and the
/// instant against which past use is measured.
pub struct RepoMatcher {
    engine: MatchEngine,
    items: Vec<RepoItem>,
    now: i64,
}

impl RepoMatcher {
    /// The items, by handle.
    pub closed spec fn items(&self) -> Seq<RepoItem> {
        self.items@
    }

    /// The instant against which past use is measured, in Unix seconds.
    pub closed spec fn now(&self) -> i64 {
        self.now
    }

    /// The engine behind the matcher.
    pub closed spec fn engine(&self) -> MatchEngine {
        self.engine
    }

    /// The active pattern.
    pub open spec fn pattern(&self) -> Seq<char> {
        self.engine().pattern()
    }

    /// The engine's current snapshot.
    pub open spec fn results(&self) -> Seq<MatchResult> {
        self.engine().results()
    }

    /// Whether the scan for the active pattern is still to be finished.
    pub open spec fn is_pending(&self) -> bool {
        self.engine().is_pending()
    }

    /// The current matches in the order in which they are shown.
    pub open spec fn order(&self) -> Seq<Ranked> {
        ranking_of(entries_of(self.items(), self.now(), self.results()))
    }

    /// The item shown at place `k`.
    pub open spec fn shown_item(&self, k: int) -> RepoItem {
        self.items()[self.order()[k].handle as int]
    }

    /// The engine is sound and was seeded with the names of the items.
    pub open spec fn wf(&self) -> bool {
        &&& self.engine().wf()
        &&& self.engine().is_seeded()
        &&& self.engine().corpus() == names_of(self.items())
    }

    /// The entries to rank name items, carry sound keys and differ in their
    /// handles.
    pub proof fn lemma_entries_are_sound(&self)
        requires
            self.wf(),
        ensures
            self.results().len() <= self.items().len(),
            forall|k: int|
                0 <= k < self.results().len() ==> (#[trigger] self.results()[k]).handle
                    < self.items().len(),
            distinct_handles(entries_of(self.items(), self.now(), self.results())),
            keys_wf(entries_of(self.items(), self.now(), self.results())),
    {
        self.engine.lemma_results_name_matches();
        let entries = entries_of(self.items(), self.now(), self.results());
        assert forall|k: int| 0 <= k < entries.len() implies (#[trigger] entries[k]).key.wf() by {
            let found = self.results()[k];
            let repo = self.items()[found.handle as int].repo;
            lemma_order_key_wf(
                found.raw_score,
                repo.access_count,
                repo.last_accessed_at,
                self.now(),
            );
        }
        assert forall|i: int, j: int| 0 <= i < j < entries.len() implies (
        #[trigger] entries[i]).handle != (#[trigger] entries[j]).handle by {
            assert(self.results()[i].handle < self.results()[j].handle);
        }
    }

    /// A matcher over `repos`, followed by one entry for each of `orgs`, with
    /// past use measured against `now`. The pattern is empty and nothing is
    /// matched before the first tick.
    pub fn new_at(repos: Vec<Repo>, orgs: Vec<Org>, now: i64) -> (matcher: RepoMatcher)
        ensures
            matcher.wf(),
            matcher.now() == now,
            matcher.items().len() == repos.len() + orgs.len(),
            forall|i: int|
                0 <= i < repos.len() ==> (#[trigger] matcher.items()[i]).repo == repos[i]
                    && matcher.items()[i].wf(),
            forall|j: int|
                0 <= j < orgs.len() ==> stands_for(
                    (#[trigger] matcher.items()[repos.len() + j]).repo,
                    orgs[j],
                ) && matcher.items()[repos.len() + j].wf(),
            matcher.pattern().len() == 0,
            matcher.results().len() == 0,
            matcher.is_pending(),
    {
        let mut items: Vec<RepoItem> = Vec::new();
        let mut names: Vec<String> = Vec::new();
        let ghost given = repos@;
        for repo in it: repos
            invariant
                it.seq() == given,
                items.len() == it.index(),
                names.len() == it.index(),
                forall|i: int|
                    0 <= i < it.index() ==> (#[trigger] items[i]).repo == given[i] && items[i].wf(),
                forall|i: int|
                    0 <= i < it.index() ==> (#[trigger] names[i])@ == items[i].full_name@,
        {
            let item = RepoItem::new(repo);
            names.push(item.full_name.clone());
            items.push(item);
        }
        let mut j: usize = 0;
        while j < orgs.len()
            invariant
                j <= orgs.len(),
                items.len() == given.len() + j,
                names.len() == items.len(),
                forall|i: int|
                    0 <= i < given.len() ==> (#[trigger] items[i]).repo == given[i] && items[i].wf(),
                forall|k: int|
                    0 <= k < j ==> stands_for((#[trigger] items[given.len() + k]).repo, orgs[k])
                        && items[given.len() + k].wf(),
                forall|i: int|
                    0 <= i < items.len() ==> (#[trigger] names[i])@ == items[i].full_name@,
            decreases orgs.len() - j,
        {
            let item = RepoItem::new(org_record(&orgs[j]));
            names.push(item.full_name.clone());
            items.push(item);
            j = j + 1;
        }
        let mut engine = MatchEngine::new();
        let ghost listed = names@;
        let _ = engine.seed(names);
        assert(key_views(listed) =~= names_of(items@));
        RepoMatcher { engine, items, now }
    }

    /// As `new_at`, with past use measured against the instant the clock
    /// shows.
    pub fn new(repos: Vec<Repo>, orgs: Vec<Org>) -> (matcher: RepoMatcher)
        ensures
            matcher.wf(),
            matcher.items().len() == repos.len() + orgs.len(),
            forall|i: int|
                0 <= i < repos.len() ==> (#[trigger] matcher.items()[i]).repo == repos[i]
                    && matcher.items()[i].wf(),
            forall|j: int|
                0 <= j < orgs.len() ==> stands_for(
                    (#[trigger] matcher.items()[repos.len() + j]).repo,
                    orgs[j],
                ) && matcher.items()[repos.len() + j].wf(),
            matcher.pattern().len() == 0,
            matcher.results().len() == 0,
            matcher.is_pending(),
    {
        RepoMatcher::new_at(repos, orgs, unix_seconds_now())
    }

    /// Makes `pattern` the active pattern. What is shown stays until a scan
    /// for the new pattern has finished.
    pub fn update_pattern(&mut self, pattern: String)
        requires
            old(self).wf(),
        ensures
            final(self).wf(),
            final(self).pattern() == pattern@,
            final(self).is_pending(),
            final(self).items() == old(self).items(),
            final(self).now() == old(self).now(),
            final(self).results() == old(self).results(),
    {
        self.engine.set_pattern(pattern.as_str());
    }

    /// Works on the scan for about `TICK_BUDGET_MS` milliseconds. A scan that
    /// finishes replaces what is shown by the complete result for the active
    /// pattern; one that does not has got further; with no scan to finish,
    /// nothing changes.
    pub fn tick(&mut self)
        requires
            old(self).wf(),
        ensures
            final(self).wf(),
            final(self).pattern() == old(self).pattern(),
            final(self).items() == old(self).items(),
            final(self).now() == old(self).now(),
            !old(self).is_pending() ==> !final(self).is_pending() && final(self).results()
                == old(self).results(),
            final(self).is_pending() ==> final(self).results() == old(self).results()
                && final(self).engine().progress() > old(self).engine().progress(),
            !final(self).is_pending() ==> final(self).results() == all_matches(
                names_of(old(self).items()),
                old(self).pattern(),
            ),
    {
        self.engine.advance(TICK_BUDGET_MS);
    }

    /// Whether the scan for the active pattern is still to be finished.
    pub fn has_pending_work(&self) -> (pending: bool)
        ensures
            pending == self.is_pending(),
    {
        self.engine.has_pending_work()
    }

    /// The number of current matches.
    pub fn match_count(&self) -> (count: usize)
        requires
            self.wf(),
        ensures
            count == self.results().len(),
            count == self.order().len(),
    {
        proof {
            self.lemma_order_is_ranking();
        }
        self.engine.snapshot().len()
    }

    /// `order` is a ranking of the current matches: it holds each of them
    /// once, names items only, and stands in rank order.
    pub proof fn lemma_order_is_ranking(&self)
        requires
            self.wf(),
        ensures
            self.order().len() == self.results().len(),
            is_ranking_of(
                self.order(),
                entries_of(self.items(), self.now(), self.results()),
            ),
            distinct_handles(self.order()),
            forall|k: int|
                0 <= k < self.order().len() ==> (#[trigger] self.order()[k]).handle
                    < self.items().len(),
    {
        self.lemma_entries_are_sound();
        let entries = entries_of(self.items(), self.now(), self.results());
        lemma_ranking_exists(entries);
        lemma_ranking_same_members(self.order(), entries);
        assert forall|k: int| 0 <= k < self.order().len() implies (
        #[trigger] self.order()[k]).handle < self.items().len() by {
            let e = self.order()[k];
            assert(entries.contains(e));
            let p = choose|p: int| 0 <= p < entries.len() && entries[p] == e;
            assert(entries[p].handle == self.results()[p].handle);
        }
    }

    /// The current matches, best first: by order key, and among equal keys
    /// in the order of the items.
    pub fn matches_sorted(&self) -> (shown: Vec<&RepoItem>)
        requires
            self.wf(),
        ensures
            shown.len() == self.order().len(),
            forall|k: int|
                0 <= k < shown.len() ==> *(#[trigger] shown[k]) == self.shown_item(k),
    {
        let ranked = self.ranked_entries();
        proof {
            self.lemma_order_is_ranking();
        }
        let mut shown: Vec<&RepoItem> = Vec::new();
        let mut k: usize = 0;
        while k < ranked.len()
            invariant
                k <= ranked.len(),
                ranked@ == self.order(),
                shown.len() == k,
                forall|i: int|
                    0 <= i < ranked.len() ==> (#[trigger] ranked[i]).handle < self.items.len(),
                forall|i: int|
                    0 <= i < k ==> *(#[trigger] shown[i]) == self.items[ranked[i].handle as int],
            decreases ranked.len() - k,
        {
            shown.push(&self.items[ranked[k].handle]);
            k = k + 1;
        }
        shown
    }

    /// The current matches as ranked entries.
    pub fn ranked_entries(&self) -> (ranked: Vec<Ranked>)
        requires
            self.wf(),
        ensures
            ranked@ == self.order(),
    {
        let results = self.engine.snapshot();
        proof {
            self.lemma_entries_are_sound();
        }
        let mut entries: Vec<Ranked> = Vec::new();
        let mut k: usize = 0;
        while k < results.len()
            invariant
                k <= results.len(),
                results@ == self.results(),
                entries.len() == k,
                forall|i: int|
                    0 <= i < results.len() ==> (#[trigger] results[i]).handle < self.items.len(),
                forall|i: int|
                    0 <= i < k ==> #[trigger] entries[i] == entry_of(
                        self.items@,
                        self.now,
                        results[i],
                    ) && entries[i].key.wf(),
            decreases results.len() - k,
        {
            let found = results[k];
            let key = order_key(&self.items[found.handle], found.raw_score, self.now);
            entries.push(Ranked { handle: found.handle, key });
            k = k + 1;
        }
        assert(entries@ =~= entries_of(self.items(), self.now(), self.results()));
        rank(&entries)
    }
}

/// How often and when each of `items` was used, by handle.
pub open spec fn usage_of(items: Seq<RepoItem>) -> Seq<(u32, Option<i64>)> {
    Seq::new(items.len(), |i: int| (items[i].repo.access_count, items[i].repo.last_accessed_at))
}

/// Matchers that hold items of the same names and usage, measure use against
/// the same instant and have finished the scan for the same pattern show the
/// same entries in the same order, whatever was typed before and however the
/// scans were cut into ticks.
pub proof fn lemma_settled_matchers_agree(a: &RepoMatcher, b: &RepoMatcher)
    requires
        a.wf(),
        b.wf(),
        names_of(a.items()) == names_of(b.items()),
        usage_of(a.items()) == usage_of(b.items()),
        a.now() == b.now(),
        a.pattern() == b.pattern(),
        !a.is_pending(),
        !b.is_pending(),
    ensures
        a.results() == b.results(),
        a.order() == b.order(),
{
    a.engine().lemma_snapshot_is_complete();
    b.engine().lemma_snapshot_is_complete();
    a.lemma_entries_are_sound();
    b.lemma_entries_are_sound();
    let entries_a = entries_of(a.items(), a.now(), a.results());
    let entries_b = entries_of(b.items(), b.now(), b.results());
    assert(names_of(a.items()).len() == names_of(b.items()).len());
    assert forall|k: int| 0 <= k < entries_a.len() implies entries_a[k] == entries_b[k] by {
        let h = a.results()[k].handle as int;
        assert(usage_of(a.items())[h] == usage_of(b.items())[h]);
    }
    assert(entries_a =~= entries_b);
}

impl RepoMatcher {
    /// Finishes the scan for the active pattern.
    pub fn settle(&mut self)
        requires
            old(self).wf(),
        ensures
            final(self).wf(),
            !final(self).is_pending(),
            final(self).pattern() == old(self).pattern(),
            final(self).items() == old(self).items(),
            final(self).now() == old(self).now(),
            final(self).results() == all_matches(
                names_of(old(self).items()),
                old(self).pattern(),
            ),
    {
        proof {
            self.engine.lemma_snapshot_is_complete();
            self.engine.lemma_results_name_matches();
        }
        let pending = self.engine.advance_by(usize::MAX);
        assert(!pending);
    }

    /// The names of the first `count` current matches, best first; of all
    /// where there are fewer.
    pub fn top_names(&self, count: usize) -> (names: Vec<String>)
        requires
            self.wf(),
        ensures
            names.len() == vstd::math::min(count as int, self.order().len() as int),
            forall|k: int|
                0 <= k < names.len() ==> (#[trigger] names[k])@ == self.shown_item(k).full_name@,
    {
        let shown = self.matches_sorted();
        let mut names: Vec<String> = Vec::new();
        let mut k: usize = 0;
        while k < shown.len() && k < count
            invariant
                k <= shown.len(),
                k <= count,
                names.len() == k,
                shown.len() == self.order().len(),
                forall|i: int|
                    0 <= i < shown.len() ==> *(#[trigger] shown[i]) == self.shown_item(i),
                forall|i: int|
                    0 <= i < k ==> (#[trigger] names[i])@ == self.shown_item(i).full_name@,
            decreases shown.len() - k,
        {
            names.push(shown[k].full_name.clone());
            k = k + 1;
        }
        names
    }
}

/// The names of the best `count` matches of `query` among `repos` and
/// `orgs`, with past use measured against `now`.
pub fn search_names(
    repos: Vec<Repo>,
    orgs: Vec<Org>,
    query: String,
    count: usize,
    now: i64,
) -> (r: (RepoMatcher, Vec<String>))
    ensures
        r.0.wf(),
        !r.0.is_pending(),
        r.0.pattern() == query@,
        r.0.now() == now,
        r.0.items().len() == repos.len() + orgs.len(),
        forall|i: int|
            0 <= i < repos.len() ==> (#[trigger] r.0.items()[i]).repo == repos[i]
                && r.0.items()[i].wf(),
        forall|j: int|
            0 <= j < orgs.len() ==> stands_for(
                (#[trigger] r.0.items()[repos.len() + j]).repo,
                orgs[j],
            ) && r.0.items()[repos.len() + j].wf(),
        r.0.results() == all_matches(names_of(r.0.items()), query@),
        r.1.len() == vstd::math::min(count as int, r.0.order().len() as int),
        forall|k: int|
            0 <= k < r.1.len() ==> (#[trigger] r.1[k])@ == r.0.shown_item(k).full_name@,
{
    let mut matcher = RepoMatcher::new_at(repos, orgs, now);
    matcher.update_pattern(query);
    matcher.settle();
    let names = matcher.top_names(count);
    (matcher, names)
}

} // verus!
