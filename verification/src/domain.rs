//! Organisations and repositories, and the usage score derived from how
//! often and how recently an entry was opened.

use crate::clock::unix_seconds_now;
use vstd::prelude::*;

verus! {

/// Days assumed to have passed for an entry that was never opened.
pub const NEVER_USED_DAYS: u64 = 30;

/// No two instants that fit a signed 64-bit count of seconds lie this many
/// days apart.
pub const MAX_DAYS_PLUS_ONE: u64 = 0x1_0000_0000_0000;

/// Whole days from `last` to `now`, both in Unix seconds; zero when `last`
/// is not in the past.
pub open spec fn days_between(last: i64, now: i64) -> nat {
    if now > last {
        ((now - last) / 86_400) as nat
    } else {
        0
    }
}

/// Days since the last use as the score sees them: the real distance, or
/// `NEVER_USED_DAYS` for an entry without a last use.
pub open spec fn days_since(last_used: Option<i64>, now: i64) -> nat {
    match last_used {
        Some(last) => days_between(last, now),
        None => NEVER_USED_DAYS as nat,
    }
}

/// A usage score as an exact fraction: the number of uses over the days
/// since the last one, plus one.
#[derive(Debug, Clone, Copy, PartialEq, Eq, Structural)]
pub struct UsageScore {
    pub uses: u32,
    pub days_plus_one: u64,
}

impl UsageScore {
    /// The denominator is at least one and within the span of the clock.
    pub open spec fn wf(self) -> bool {
        1 <= self.days_plus_one <= MAX_DAYS_PLUS_ONE
    }
}

/// The usage score of an entry used `uses` times, last at `last_used`.
pub open spec fn usage_score(uses: u32, last_used: Option<i64>, now: i64) -> UsageScore {
    UsageScore { uses, days_plus_one: (days_since(last_used, now) + 1) as u64 }
}

/// Computes `days_since`.
pub fn elapsed_days(last_used: Option<i64>, now: i64) -> (days: u64)
    ensures
        days == days_since(last_used, now),
        days < MAX_DAYS_PLUS_ONE,
{
    match last_used {
        Some(last) => {
            if now > last {
                let span: i128 = now as i128 - last as i128;
                (span / 86_400) as u64
            } else {
                0
            }
        },
        None => NEVER_USED_DAYS,
    }
}

/// Computes `usage_score`.
pub fn usage_score_at(uses: u32, last_used: Option<i64>, now: i64) -> (score: UsageScore)
    ensures
        score == usage_score(uses, last_used, now),
        score.wf(),
{
    UsageScore { uses, days_plus_one: elapsed_days(last_used, now) + 1 }
}

/// An organisation. Times are Unix seconds.
#[derive(Debug, Clone, PartialEq, Eq)]
pub struct Org {
    pub id: i64,
    pub login: String,
    pub name: Option<String>,
    pub avatar_url: Option<String>,
    pub last_accessed_at: Option<i64>,
    pub access_count: u32,
}

impl Org {
    /// An organisation that was never opened.
    pub fn new(id: i64, login: String, name: Option<String>, avatar_url: Option<String>) -> (org:
        Org)
        ensures
            org == (Org { id, login, name, avatar_url, last_accessed_at: None, access_count: 0 }),
    {
        Org { id, login, name, avatar_url, last_accessed_at: None, access_count: 0 }
    }
}

/// A repository. Times are Unix seconds.
#[derive(Debug, Clone, PartialEq, Eq)]
pub struct Repo {
    pub id: i64,
    pub name: String,
    pub full_name: String,
    pub owner_id: i64,
    pub owner_login: String,
    pub private: bool,
    pub description: Option<String>,
    pub language: Option<String>,
    pub default_branch: Option<String>,
    pub last_accessed_at: Option<i64>,
    pub access_count: u32,
}

impl Repo {
    /// A repository that was never opened.
    pub fn new(
        id: i64,
        name: String,
        full_name: String,
        owner_id: i64,
        owner_login: String,
        private: bool,
        description: Option<String>,
        language: Option<String>,
        default_branch: Option<String>,
    ) -> (repo: Repo)
        ensures
            repo == (Repo {
                id,
                name,
                full_name,
                owner_id,
                owner_login,
                private,
                description,
                language,
                default_branch,
                last_accessed_at: None,
                access_count: 0,
            }),
    {
        Repo {
            id,
            name,
            full_name,
            owner_id,
            owner_login,
            private,
            description,
            language,
            default_branch,
            last_accessed_at: None,
            access_count: 0,
        }
    }

    /// The usage score at the instant `now`.
    pub fn score_at(&self, now: i64) -> (score: UsageScore)
        ensures
            score == usage_score(self.access_count, self.last_accessed_at, now),
            score.wf(),
    {
        usage_score_at(self.access_count, self.last_accessed_at, now)
    }

    /// The usage score at the instant the clock shows.
    pub fn score(&self) -> (score: UsageScore)
        ensures
            score.wf(),
            exists|now: i64|
                score == #[trigger] usage_score(self.access_count, self.last_accessed_at, now),
    {
        self.score_at(unix_seconds_now())
    }

    /// Counts one more use, made at `now`.
    pub fn record_access_at(&mut self, now: i64)
        requires
            old(self).access_count < u32::MAX,
        ensures
            *final(self) == (Repo {
                access_count: (old(self).access_count + 1) as u32,
                last_accessed_at: Some(now),
                ..*old(self)
            }),
    {
        self.access_count = self.access_count + 1;
        self.last_accessed_at = Some(now);
    }

    /// Counts one more use, made at the instant the clock shows.
    pub fn record_access(&mut self)
        requires
            old(self).access_count < u32::MAX,
        ensures
            final(self).access_count == old(self).access_count + 1,
            final(self).last_accessed_at.is_some(),
            *final(self) == (Repo {
                access_count: final(self).access_count,
                last_accessed_at: final(self).last_accessed_at,
                ..*old(self)
            }),
    {
        self.record_access_at(unix_seconds_now());
    }
}

} // verus!
