//! What is said to and about the local cache: its statistics as text, and
//! the statement that prunes repositories of owners that are gone.

use crate::text::{numeral, push_numeral, push_signed_numeral, signed_numeral};
use vstd::prelude::*;
use vstd::string::StringExecFns;

verus! {

/// The size of the cache.
#[derive(Debug, Clone, Copy, PartialEq, Eq, Structural)]
pub struct CacheStats {
    pub org_count: i64,
    pub repo_count: i64,
    pub size_bytes: u64,
}

impl CacheStats {
    /// The statistics as one JSON object with the keys `orgs`, `repos` and
    /// `size`.
    pub open spec fn json(self) -> Seq<char> {
        "{\"orgs\":"@ + signed_numeral(self.org_count as int) + ",\"repos\":"@ + signed_numeral(
            self.repo_count as int,
        ) + ",\"size\":"@ + numeral(self.size_bytes as nat) + seq!['}']
    }

    /// Computes `json`.
    pub fn to_json(&self) -> (text: String)
        ensures
            text@ == self.json(),
    {
        let mut text = String::from_str("{\"orgs\":");
        push_signed_numeral(&mut text, self.org_count);
        text.append(",\"repos\":");
        push_signed_numeral(&mut text, self.repo_count);
        text.append(",\"size\":");
        push_numeral(&mut text, self.size_bytes);
        text.push('}');
        text
    }

    /// The statistics as lines for a reader: a heading, then organisations,
    /// repositories and size.
    pub open spec fn lines(self) -> Seq<Seq<char>> {
        seq![
            "Cache Statistics:"@,
            "  Organizations: "@ + signed_numeral(self.org_count as int),
            "  Repositories: "@ + signed_numeral(self.repo_count as int),
            "  Size: "@ + numeral(self.size_bytes as nat) + " bytes"@,
        ]
    }

    /// Computes `lines`.
    pub fn to_lines(&self) -> (lines: Vec<String>)
        ensures
            lines.len() == 4,
            forall|i: int| 0 <= i < 4 ==> (#[trigger] lines[i])@ == self.lines()[i],
    {
        let mut orgs = String::from_str("  Organizations: ");
        push_signed_numeral(&mut orgs, self.org_count);
        let mut repos = String::from_str("  Repositories: ");
        push_signed_numeral(&mut repos, self.repo_count);
        let mut size = String::from_str("  Size: ");
        push_numeral(&mut size, self.size_bytes);
        size.append(" bytes");
        let mut lines: Vec<String> = Vec::new();
        lines.push(String::from_str("Cache Statistics:"));
        lines.push(orgs);
        lines.push(repos);
        lines.push(size);
        lines
    }
}

/// `count` question marks with commas between them.
pub open spec fn placeholders(count: nat) -> Seq<char>
    decreases count,
{
    if count == 0 {
        Seq::empty()
    } else if count == 1 {
        seq!['?']
    } else {
        placeholders((count - 1) as nat) + seq![',', '?']
    }
}

/// The statement that deletes the repositories whose owner is none of
/// `owners` given owners: all repositories where no owner is given.
pub open spec fn prune_statement_of(owners: nat) -> Seq<char> {
    if owners == 0 {
        "DELETE FROM repos"@
    } else {
        "DELETE FROM repos WHERE owner_id NOT IN ("@ + placeholders(owners) + seq![')']
    }
}

/// Computes `prune_statement_of`.
pub fn prune_statement(owners: usize) -> (sql: String)
    ensures
        sql@ == prune_statement_of(owners as nat),
{
    if owners == 0 {
        return String::from_str("DELETE FROM repos");
    }
    let mut sql = String::from_str("DELETE FROM repos WHERE owner_id NOT IN (");
    let ghost head = sql@;
    sql.push('?');
    let mut written: usize = 1;
    assert(sql@ =~= head + placeholders(1));
    while written < owners
        invariant
            1 <= written <= owners,
            sql@ == head + placeholders(written as nat),
        decreases owners - written,
    {
        sql.push(',');
        sql.push('?');
        written = written + 1;
        assert(sql@ =~= head + placeholders(written as nat));
    }
    sql.push(')');
    assert(sql@ =~= prune_statement_of(owners as nat));
    sql
}

/// The name of a repository as the cache knows it, from the address that was
/// opened: the address without the host where it names GitHub.
pub open spec fn cache_key_of(url: Seq<char>) -> Seq<char> {
    if crate::text::has_prefix(url, "https://github.com/"@) {
        url.skip("https://github.com/"@.len() as int)
    } else {
        url
    }
}

/// Computes `cache_key_of`.
pub fn cache_key(url: &str) -> (key: String)
    ensures
        key@ == cache_key_of(url@),
{
    let text = crate::text::chars_of(url);
    let host = crate::text::chars_of("https://github.com/");
    if crate::text::starts_with(&text, &host) {
        assert(text@.subrange(host.len() as int, text.len() as int) =~= url@.skip(
            host.len() as int,
        ));
        crate::text::string_of(&text, host.len(), text.len())
    } else {
        String::from_str(url)
    }
}

} // verus!
