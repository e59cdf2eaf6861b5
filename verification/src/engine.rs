//! The match engine: a corpus of keys seeded once, a pattern that may change
//! at every keystroke, and a scan of the corpus against the pattern that is
//! done in bounded steps. A reader always sees a complete result: the last
//! one finished, never one half built.

use crate::clock::{is_budget_spent, unix_millis_now};
use crate::matching::{fuzzy_matches, matches_key};
use crate::scoring::{grade, new_matcher, raw_score};
use crate::text::chars_of;
use vstd::prelude::*;

verus! {

/// Keys examined between two readings of the clock.
pub const KEYS_PER_CLOCK_READING: usize = 256;

/// One matched key: its position in the corpus and the quality of the match.
#[derive(Debug, Clone, Copy, PartialEq, Eq, Structural)]
pub struct MatchResult {
    pub handle: usize,
    pub raw_score: u16,
}

/// The engine was seeded before.
#[derive(Debug, Clone, Copy, PartialEq, Eq, Structural)]
pub struct AlreadySeededError;

/// The matches among the first `upto` keys, in corpus order.
pub open spec fn scan(keys: Seq<Seq<char>>, pattern: Seq<char>, upto: int) -> Seq<MatchResult>
    decreases upto,
{
    if upto <= 0 {
        Seq::empty()
    } else {
        let earlier = scan(keys, pattern, upto - 1);
        let key = keys[upto - 1];
        if fuzzy_matches(pattern, key) {
            earlier.push(
                MatchResult { handle: (upto - 1) as usize, raw_score: raw_score(pattern, key) },
            )
        } else {
            earlier
        }
    }
}

/// The complete result for a corpus and a pattern.
pub open spec fn all_matches(keys: Seq<Seq<char>>, pattern: Seq<char>) -> Seq<MatchResult> {
    scan(keys, pattern, keys.len() as int)
}

/// The positions of the keys that `pattern` matches.
pub open spec fn matched_set(keys: Seq<Seq<char>>, pattern: Seq<char>) -> Set<int> {
    Set::new(|i: int| 0 <= i < keys.len() && fuzzy_matches(pattern, keys[i]))
}

/// What a scan holds: each entry names a matching key among those examined
/// and carries its raw score; the entries stand in corpus order; and no
/// matching key among those examined is left out.
pub proof fn lemma_scan_entries(keys: Seq<Seq<char>>, pattern: Seq<char>, upto: int)
    requires
        0 <= upto <= keys.len() <= usize::MAX,
    ensures
        scan(keys, pattern, upto).len() <= upto,
        forall|k: int|
            0 <= k < scan(keys, pattern, upto).len() ==> {
                let e = #[trigger] scan(keys, pattern, upto)[k];
                &&& 0 <= e.handle < upto
                &&& fuzzy_matches(pattern, keys[e.handle as int])
                &&& e.raw_score == raw_score(pattern, keys[e.handle as int])
            },
        forall|a: int, b: int|
            0 <= a < b < scan(keys, pattern, upto).len() ==> (#[trigger] scan(
                keys,
                pattern,
                upto,
            )[a]).handle < (#[trigger] scan(keys, pattern, upto)[b]).handle,
        forall|i: int|
            0 <= i < upto && fuzzy_matches(pattern, #[trigger] keys[i]) ==> exists|k: int|
                0 <= k < scan(keys, pattern, upto).len() && (#[trigger] scan(
                    keys,
                    pattern,
                    upto,
                )[k]).handle == i,
    decreases upto,
{
    if upto > 0 {
        lemma_scan_entries(keys, pattern, upto - 1);
        let earlier = scan(keys, pattern, upto - 1);
        let now = scan(keys, pattern, upto);
        assert forall|i: int|
            0 <= i < upto && fuzzy_matches(pattern, #[trigger] keys[i]) implies exists|k: int|
            0 <= k < now.len() && (#[trigger] now[k]).handle == i by {
            if i < upto - 1 {
                let k = choose|k: int|
                    0 <= k < earlier.len() && (#[trigger] earlier[k]).handle == i;
                assert(now[k] == earlier[k]);
            } else {
                assert(now[now.len() - 1].handle == i);
            }
        }
        assert forall|a: int, b: int| 0 <= a < b < now.len() implies (#[trigger] now[a]).handle < (
        #[trigger] now[b]).handle by {
            if b < earlier.len() {
                assert(now[a] == earlier[a] && now[b] == earlier[b]);
            } else {
                assert(now[a] == earlier[a]);
            }
        }
    }
}

/// The handles in the complete result are the positions that `matched_set`
/// holds.
pub proof fn lemma_all_matches_cover_matched_set(keys: Seq<Seq<char>>, pattern: Seq<char>)
    requires
        keys.len() <= usize::MAX,
    ensures
        forall|i: int|
            matched_set(keys, pattern).contains(i) <==> exists|k: int|
                0 <= k < all_matches(keys, pattern).len() && (#[trigger] all_matches(
                    keys,
                    pattern,
                )[k]).handle == i,
{
    lemma_scan_entries(keys, pattern, keys.len() as int);
    let found = all_matches(keys, pattern);
    assert forall|i: int| matched_set(keys, pattern).contains(i) implies exists|k: int|
        0 <= k < found.len() && (#[trigger] found[k]).handle == i by {
        assert(fuzzy_matches(pattern, keys[i]));
    }
}

/// A longer pattern matches no key that the shorter one did not match: the
/// matched set for `pattern` followed by `c` lies within that for `pattern`.
pub proof fn lemma_longer_pattern_narrows(keys: Seq<Seq<char>>, pattern: Seq<char>, c: char)
    ensures
        matched_set(keys, pattern.push(c)).subset_of(matched_set(keys, pattern)),
{
    assert forall|i: int| matched_set(keys, pattern.push(c)).contains(i) implies matched_set(
        keys,
        pattern,
    ).contains(i) by {
        crate::matching::lemma_shorter_pattern_matches(pattern, c, keys[i]);
    }
}

/// `results` holds an entry for the key at `handle`.
pub open spec fn finds(results: Seq<MatchResult>, handle: usize) -> bool {
    exists|m: int| 0 <= m < results.len() && (#[trigger] results[m]).handle == handle
}

/// A longer pattern finds no key that the shorter one did not find: every
/// key in the complete result for `pattern` followed by `c` is in the
/// complete result for `pattern`.
pub proof fn lemma_longer_pattern_finds_less(keys: Seq<Seq<char>>, pattern: Seq<char>, c: char)
    requires
        keys.len() <= usize::MAX,
    ensures
        forall|k: int|
            0 <= k < all_matches(keys, pattern.push(c)).len() ==> finds(
                all_matches(keys, pattern),
                (#[trigger] all_matches(keys, pattern.push(c))[k]).handle,
            ),
{
    let longer = all_matches(keys, pattern.push(c));
    lemma_scan_entries(keys, pattern.push(c), keys.len() as int);
    lemma_all_matches_cover_matched_set(keys, pattern);
    lemma_longer_pattern_narrows(keys, pattern, c);
    assert forall|k: int| 0 <= k < longer.len() implies finds(
        all_matches(keys, pattern),
        (#[trigger] longer[k]).handle,
    ) by {
        let i = longer[k].handle as int;
        assert(matched_set(keys, pattern.push(c)).contains(i));
        assert(matched_set(keys, pattern).contains(i));
    }
}

/// The texts of `keys` as sequences of characters.
pub open spec fn key_views(keys: Seq<String>) -> Seq<Seq<char>> {
    Seq::new(keys.len(), |i: int| keys[i]@)
}

/// How far a scan has got that stood at `progress` and has examined
/// `batches` batches of keys since, in a corpus of `len` keys.
pub open spec fn after_batches(progress: nat, batches: int, len: nat) -> int {
    vstd::math::min(progress + batches * KEYS_PER_CLOCK_READING, len as int)
}

/// The match engine. Keys are known by their handle, which is their
/// position in the corpus.
pub struct MatchEngine {
    matcher: nucleo::Matcher,
    seeded: bool,
    keys: Vec<String>,
    key_chars: Vec<Vec<char>>,
    pattern: String,
    pattern_chars: Vec<char>,
    pending: bool,
    cursor: usize,
    found: Vec<MatchResult>,
    snapshot: Vec<MatchResult>,
    basis: Ghost<Option<Seq<char>>>,
}

impl MatchEngine {
    /// The keys of the corpus, by handle.
    pub closed spec fn corpus(&self) -> Seq<Seq<char>> {
        key_views(self.keys@)
    }

    /// The active pattern.
    pub closed spec fn pattern(&self) -> Seq<char> {
        self.pattern@
    }

    /// What `snapshot` returns.
    pub closed spec fn results(&self) -> Seq<MatchResult> {
        self.snapshot@
    }

    /// Whether `seed` has succeeded.
    pub closed spec fn is_seeded(&self) -> bool {
        self.seeded
    }

    /// Whether the scan for the active pattern is still to be finished.
    pub closed spec fn is_pending(&self) -> bool {
        self.pending
    }

    /// How many keys the running scan has examined.
    pub closed spec fn progress(&self) -> nat {
        self.cursor as nat
    }

    /// The pattern whose complete result the snapshot holds, if any scan has
    /// finished yet.
    pub closed spec fn basis(&self) -> Option<Seq<char>> {
        self.basis@
    }

    /// The engine keeps its books: each key and the pattern are also held as
    /// characters, the running scan holds the matches among the keys it has
    /// examined, and the snapshot is the complete result for the pattern of
    /// the last scan that finished.
    pub closed spec fn wf(&self) -> bool {
        &&& self.key_chars.len() == self.keys.len()
        &&& forall|i: int|
            0 <= i < self.keys.len() ==> (#[trigger] self.key_chars[i])@ == self.keys[i]@
        &&& self.pattern_chars@ == self.pattern@
        &&& self.cursor <= self.keys.len()
        &&& !self.seeded ==> self.keys.len() == 0
        &&& self.pending ==> self.found@ == scan(self.corpus(), self.pattern@, self.cursor as int)
        &&& !self.pending ==> self.cursor == self.keys.len() && self.basis@ == Some(self.pattern@)
        &&& self.snapshot@ == match self.basis@ {
            Some(pattern) => all_matches(self.corpus(), pattern),
            None => Seq::empty(),
        }
    }

    /// What `wf` says of the snapshot: it is the complete result for the
    /// pattern it was computed for, and that is the active pattern once the
    /// scan has finished.
    pub proof fn lemma_snapshot_is_complete(&self)
        requires
            self.wf(),
        ensures
            self.progress() <= self.corpus().len(),
            !self.is_seeded() ==> self.corpus().len() == 0,
            !self.is_pending() ==> self.progress() == self.corpus().len() && self.basis() == Some(
                self.pattern(),
            ),
            self.results() == match self.basis() {
                Some(pattern) => all_matches(self.corpus(), pattern),
                None => Seq::empty(),
            },
    {
    }

    /// Every entry of the snapshot names a key of the corpus that the
    /// snapshot's pattern matches, with its raw score, and the entries stand
    /// in corpus order.
    pub proof fn lemma_results_name_matches(&self)
        requires
            self.wf(),
        ensures
            self.basis().is_none() ==> self.results().len() == 0,
            self.results().len() <= self.corpus().len() <= usize::MAX,
            forall|k: int|
                0 <= k < self.results().len() ==> {
                    let e = #[trigger] self.results()[k];
                    &&& 0 <= e.handle < self.corpus().len()
                    &&& fuzzy_matches(self.basis().unwrap(), self.corpus()[e.handle as int])
                    &&& e.raw_score == raw_score(
                        self.basis().unwrap(),
                        self.corpus()[e.handle as int],
                    )
                },
            forall|a: int, b: int|
                0 <= a < b < self.results().len() ==> (#[trigger] self.results()[a]).handle < (
                #[trigger] self.results()[b]).handle,
    {
        if self.basis@.is_some() {
            lemma_scan_entries(self.corpus(), self.basis@.unwrap(), self.corpus().len() as int);
        }
    }

    /// An engine without corpus, with the empty pattern and an empty snapshot.
    pub fn new() -> (engine: MatchEngine)
        ensures
            engine.wf(),
            !engine.is_seeded(),
            engine.is_pending(),
            engine.corpus().len() == 0,
            engine.pattern().len() == 0,
            engine.results().len() == 0,
            engine.basis().is_none(),
            engine.progress() == 0,
    {
        MatchEngine {
            matcher: new_matcher(),
            seeded: false,
            keys: Vec::new(),
            key_chars: Vec::new(),
            pattern: String::new(),
            pattern_chars: Vec::new(),
            pending: true,
            cursor: 0,
            found: Vec::new(),
            snapshot: Vec::new(),
            basis: Ghost(None),
        }
    }

    /// Gives the engine its corpus. Succeeds once; a second call fails and
    /// changes nothing.
    pub fn seed(&mut self, keys: Vec<String>) -> (r: Result<(), AlreadySeededError>)
        requires
            old(self).wf(),
        ensures
            final(self).wf(),
            final(self).is_seeded(),
            final(self).pattern() == old(self).pattern(),
            final(self).results() == old(self).results(),
            r.is_err() == old(self).is_seeded(),
            r.is_err() ==> final(self).corpus() == old(self).corpus() && final(self).is_pending()
                == old(self).is_pending() && final(self).progress() == old(self).progress()
                && final(self).basis() == old(self).basis(),
            r.is_ok() ==> final(self).corpus() == key_views(keys@) && final(self).is_pending()
                && final(self).progress() == 0 && final(self).basis().is_none(),
    {
        if self.seeded {
            return Err(AlreadySeededError);
        }
        assert(self.snapshot@ =~= Seq::empty());
        let mut key_chars: Vec<Vec<char>> = Vec::new();
        let mut i: usize = 0;
        while i < keys.len()
            invariant
                i <= keys.len(),
                key_chars.len() == i,
                forall|k: int| 0 <= k < i ==> (#[trigger] key_chars[k])@ == keys[k]@,
            decreases keys.len() - i,
        {
            key_chars.push(chars_of(keys[i].as_str()));
            i = i + 1;
        }
        self.keys = keys;
        self.key_chars = key_chars;
        self.seeded = true;
        self.pending = true;
        self.cursor = 0;
        self.found = Vec::new();
        self.basis = Ghost(None);
        Ok(())
    }

    /// Replaces the active pattern and restarts the scan. The snapshot stays
    /// as it is until a scan for the new pattern has finished.
    pub fn set_pattern(&mut self, text: &str)
        requires
            old(self).wf(),
        ensures
            final(self).wf(),
            final(self).pattern() == text@,
            final(self).is_pending(),
            final(self).progress() == 0,
            final(self).corpus() == old(self).corpus(),
            final(self).is_seeded() == old(self).is_seeded(),
            final(self).results() == old(self).results(),
            final(self).basis() == old(self).basis(),
    {
        self.pattern = text.to_owned();
        self.pattern_chars = chars_of(text);
        self.pending = true;
        self.cursor = 0;
        self.found = Vec::new();
    }

    /// The best result known: the complete result of the last scan that
    /// finished, or nothing before the first has.
    pub fn snapshot(&self) -> (results: &Vec<MatchResult>)
        requires
            self.wf(),
        ensures
            results@ == self.results(),
    {
        &self.snapshot
    }

    /// Whether the scan for the active pattern is still to be finished.
    pub fn has_pending_work(&self) -> (pending: bool)
        ensures
            pending == self.is_pending(),
    {
        self.pending
    }

    /// Examines up to `budget` further keys. When the last key has been
    /// examined, the finished result becomes the snapshot. Returns whether
    /// work is left.
    pub fn advance_by(&mut self, budget: usize) -> (pending: bool)
        requires
            old(self).wf(),
        ensures
            final(self).wf(),
            pending == final(self).is_pending(),
            final(self).corpus() == old(self).corpus(),
            final(self).pattern() == old(self).pattern(),
            final(self).is_seeded() == old(self).is_seeded(),
            !old(self).is_pending() ==> !pending && final(self).results() == old(self).results()
                && final(self).progress() == old(self).progress(),
            old(self).is_pending() ==> final(self).progress() == vstd::math::min(
                old(self).progress() + budget,
                old(self).corpus().len() as int,
            ),
            old(self).is_pending() ==> pending == (final(self).progress() < old(
                self
            ).corpus().len()),
            pending ==> final(self).results() == old(self).results() && final(self).basis()
                == old(self).basis(),
            !pending ==> final(self).results() == all_matches(
                old(self).corpus(),
                old(self).pattern(),
            ),
    {
        if !self.pending {
            return false;
        }
        let mut examined: usize = 0;
        while self.cursor < self.keys.len() && examined < budget
            invariant
                self.wf(),
                self.pending,
                self.keys == old(self).keys,
                self.pattern == old(self).pattern,
                self.seeded == old(self).seeded,
                self.snapshot == old(self).snapshot,
                self.basis == old(self).basis,
                examined <= budget,
                self.cursor == old(self).cursor + examined,
            decreases self.keys.len() - self.cursor,
        {
            let at = self.cursor;
            if matches_key(&self.pattern_chars, &self.key_chars[at]) {
                let raw = grade(
                    &mut self.matcher,
                    self.pattern.as_str(),
                    self.pattern_chars.len(),
                    self.keys[at].as_str(),
                    self.key_chars[at].len(),
                );
                self.found.push(MatchResult { handle: at, raw_score: raw });
            }
            assert(self.corpus()[at as int] == self.keys[at as int]@);
            self.cursor = at + 1;
            examined = examined + 1;
        }
        if self.cursor == self.keys.len() {
            let mut finished: Vec<MatchResult> = Vec::new();
            std::mem::swap(&mut finished, &mut self.found);
            self.snapshot = finished;
            self.basis = Ghost(Some(self.pattern@));
            self.pending = false;
        }
        self.pending
    }

    /// Works on the scan for about `budget_ms` milliseconds: it examines
    /// keys in batches of `KEYS_PER_CLOCK_READING` and reads the clock after
    /// each batch, until the scan is finished or the clock shows the budget
    /// spent. At least one batch is examined, and no more than one where the
    /// budget is zero. Returns whether work is left.
    pub fn advance(&mut self, budget_ms: u64) -> (pending: bool)
        requires
            old(self).wf(),
        ensures
            final(self).wf(),
            pending == final(self).is_pending(),
            final(self).corpus() == old(self).corpus(),
            final(self).pattern() == old(self).pattern(),
            final(self).is_seeded() == old(self).is_seeded(),
            !old(self).is_pending() ==> !pending && final(self).results() == old(self).results(),
            pending ==> final(self).results() == old(self).results() && final(self).progress()
                >= old(self).progress() + KEYS_PER_CLOCK_READING,
            !pending ==> final(self).results() == all_matches(
                old(self).corpus(),
                old(self).pattern(),
            ),
            old(self).is_pending() ==> exists|batches: int|
                batches >= 1 && final(self).progress() == #[trigger] after_batches(
                    old(self).progress(),
                    batches,
                    old(self).corpus().len(),
                ),
            old(self).is_pending() && budget_ms == 0 ==> final(self).progress() == after_batches(
                old(self).progress(),
                1,
                old(self).corpus().len(),
            ),
    {
        let start = unix_millis_now();
        let ghost mut batches: int = 1;
        let mut pending = self.advance_by(KEYS_PER_CLOCK_READING);
        while pending && !is_budget_spent(start, unix_millis_now(), budget_ms)
            invariant
                self.wf(),
                pending == self.is_pending(),
                self.corpus() == old(self).corpus(),
                self.pattern() == old(self).pattern(),
                self.is_seeded() == old(self).is_seeded(),
                !old(self).is_pending() ==> !pending && self.results() == old(self).results(),
                pending ==> self.results() == old(self).results() && self.progress() >= old(
                    self
                ).progress() + KEYS_PER_CLOCK_READING,
                !pending ==> self.results() == all_matches(
                    old(self).corpus(),
                    old(self).pattern(),
                ),
                self.progress() <= self.corpus().len(),
                batches >= 1,
                old(self).is_pending() ==> self.progress() == after_batches(
                    old(self).progress(),
                    batches,
                    old(self).corpus().len(),
                ),
                budget_ms == 0 ==> batches == 1,
            decreases self.corpus().len() - self.progress() + if pending { 1int } else { 0int },
        {
            pending = self.advance_by(KEYS_PER_CLOCK_READING);
            proof {
                batches = batches + 1;
            }
        }
        pending
    }
}

} // verus!
