//! The matching rule: a pattern matches a key when its characters occur in
//! the key in the same order, gaps allowed, compared without regard to
//! letter case. Case is folded as nucleo folds it.

use vstd::prelude::*;

verus! {

/// `c` with an ASCII capital replaced by its small letter.
pub open spec fn ascii_lower(c: char) -> char {
    if 'A' <= c && c <= 'Z' {
        ((c as u8 + 32) as u8) as char
    } else {
        c
    }
}

/// What `nucleo::chars::to_lower_case` returns for `c`: the character that
/// the simple case folding of Unicode puts in its place, or `c` itself where
/// that folding leaves it alone.
pub uninterp spec fn simple_fold(c: char) -> char;

/// `c` with its letter case folded away: within ASCII a capital becomes its
/// small letter, beyond ASCII the character is folded as nucleo's table says.
pub open spec fn fold(c: char) -> char {
    if c <= '\u{7f}' {
        ascii_lower(c)
    } else {
        simple_fold(c)
    }
}

/// `nucleo::chars::to_lower_case`: looks `c` up in nucleo's table of simple
/// case foldings. Within ASCII the table holds the capitals `A` to `Z` with
/// their small letters and nothing else, which is stated; beyond ASCII the
/// result is named.
#[verifier::external_body]
pub(crate) fn lower_case(c: char) -> (r: char)
    ensures
        r == (if c <= '\u{7f}' {
            ascii_lower(c)
        } else {
            simple_fold(c)
        }),
{
    nucleo::chars::to_lower_case(c)
}

/// `idx` places each character of `pattern` on an equal character of `key`
/// (up to letter case), at strictly rising positions.
pub open spec fn embeds(idx: Seq<int>, pattern: Seq<char>, key: Seq<char>) -> bool {
    &&& idx.len() == pattern.len()
    &&& forall|i: int|
        0 <= i < idx.len() ==> 0 <= #[trigger] idx[i] < key.len() && fold(key[idx[i]]) == fold(
            pattern[i],
        )
    &&& forall|i: int, j: int| 0 <= i < j < idx.len() ==> #[trigger] idx[i] < #[trigger] idx[j]
}

/// `pattern` is a subsequence of `key`, letter case ignored.
pub open spec fn fuzzy_matches(pattern: Seq<char>, key: Seq<char>) -> bool {
    exists|idx: Seq<int>| embeds(idx, pattern, key)
}

/// The first `n` places of an embedding embed the first `n` characters of
/// the pattern, in the part of the key before `bound` when the places lie there.
pub proof fn lemma_embeds_prefix(
    idx: Seq<int>,
    pattern: Seq<char>,
    key: Seq<char>,
    n: int,
    bound: int,
)
    requires
        embeds(idx, pattern, key),
        0 <= n <= pattern.len(),
        0 <= bound <= key.len(),
        n > 0 ==> idx[n - 1] < bound,
    ensures
        embeds(idx.take(n), pattern.take(n), key.take(bound)),
{
    let short = idx.take(n);
    assert forall|i: int| 0 <= i < short.len() implies 0 <= #[trigger] short[i] < key.take(
        bound,
    ).len() && fold(key.take(bound)[short[i]]) == fold(pattern.take(n)[i]) by {
        assert(short[i] == idx[i]);
        if i < n - 1 {
            assert(idx[i] < idx[n - 1]);
        }
    }
    assert forall|i: int, j: int| 0 <= i < j < short.len() implies #[trigger] short[i]
        < #[trigger] short[j] by {
        assert(short[i] == idx[i]);
        assert(short[j] == idx[j]);
    }
}

/// An embedding into a part of the key is one into the whole key.
pub proof fn lemma_embeds_widen(idx: Seq<int>, pattern: Seq<char>, key: Seq<char>, bound: int)
    requires
        0 <= bound <= key.len(),
        embeds(idx, pattern, key.take(bound)),
    ensures
        embeds(idx, pattern, key),
{
    assert forall|i: int| 0 <= i < idx.len() implies 0 <= #[trigger] idx[i] < key.len() && fold(
        key[idx[i]],
    ) == fold(pattern[i]) by {
        assert(key.take(bound)[idx[i]] == key[idx[i]]);
    }
}

/// A pattern that matches still matches without its last character.
pub proof fn lemma_shorter_pattern_matches(pattern: Seq<char>, c: char, key: Seq<char>)
    requires
        fuzzy_matches(pattern.push(c), key),
    ensures
        fuzzy_matches(pattern, key),
{
    let longer = pattern.push(c);
    let idx = choose|idx: Seq<int>| embeds(idx, longer, key);
    lemma_embeds_prefix(idx, longer, key, pattern.len() as int, key.len() as int);
    assert(longer.take(pattern.len() as int) =~= pattern);
    assert(key.take(key.len() as int) =~= key);
}

/// Computes `fold`.
pub fn fold_char(c: char) -> (r: char)
    ensures
        r == fold(c),
{
    lower_case(c)
}

/// Decides `fuzzy_matches` in one pass over the key.
pub fn matches_key(pattern: &Vec<char>, key: &Vec<char>) -> (r: bool)
    ensures
        r == fuzzy_matches(pattern@, key@),
{
    let mut i: usize = 0;
    let mut j: usize = 0;
    let ghost mut placed: Seq<int> = Seq::empty();
    proof {
        if pattern.len() > 0 {
            let first = pattern@.take(1);
            let nothing = key@.take(0);
            if fuzzy_matches(first, nothing) {
                let idx = choose|idx: Seq<int>| embeds(idx, first, nothing);
                assert(idx[0] < nothing.len());
                assert(false);
            }
        }
    }
    while i < key.len() && j < pattern.len()
        invariant
            0 <= i <= key.len(),
            0 <= j <= pattern.len(),
            embeds(placed, pattern@.take(j as int), key@.take(i as int)),
            j < pattern.len() ==> !fuzzy_matches(pattern@.take(j + 1), key@.take(i as int)),
        decreases key.len() - i,
    {
        let ghost seen = key@.take(i as int);
        let ghost wider = key@.take(i + 1);
        assert(wider.take(i as int) =~= seen);
        if fold_char(key[i]) == fold_char(pattern[j]) {
            proof {
                let next = placed.push(i as int);
                lemma_embeds_widen(placed, pattern@.take(j as int), wider, i as int);
                assert(embeds(next, pattern@.take(j + 1), wider)) by {
                    assert forall|a: int| 0 <= a < next.len() implies 0 <= #[trigger] next[a]
                        < wider.len() && fold(wider[next[a]]) == fold(pattern@.take(j + 1)[a]) by {
                        if a < j {
                            assert(next[a] == placed[a]);
                            assert(pattern@.take(j as int)[a] == pattern@.take(j + 1)[a]);
                        }
                    }
                    assert forall|a: int, b: int| 0 <= a < b < next.len() implies #[trigger] next[a]
                        < #[trigger] next[b] by {
                        assert(next[a] == placed[a]);
                        assert(placed[a] < seen.len());
                        if b < j {
                            assert(next[b] == placed[b]);
                        }
                    }
                }
                if j + 1 < pattern.len() {
                    let longer = pattern@.take(j + 2);
                    if fuzzy_matches(longer, wider) {
                        let idx = choose|idx: Seq<int>| embeds(idx, longer, wider);
                        assert(idx[j as int] < idx[j + 1]);
                        lemma_embeds_prefix(idx, longer, wider, j + 1, i as int);
                        assert(longer.take(j + 1) =~= pattern@.take(j + 1));
                        assert(false);
                    }
                }
                placed = next;
            }
            j = j + 1;
        } else {
            proof {
                lemma_embeds_widen(placed, pattern@.take(j as int), wider, i as int);
                let wanted = pattern@.take(j + 1);
                if fuzzy_matches(wanted, wider) {
                    let idx = choose|idx: Seq<int>| embeds(idx, wanted, wider);
                    assert(idx[j as int] < wider.len());
                    if idx[j as int] == i {
                        assert(fold(wider[idx[j as int]]) == fold(wanted[j as int]));
                        assert(false);
                    }
                    lemma_embeds_prefix(idx, wanted, wider, j + 1, i as int);
                    assert(wanted.take(j + 1) =~= wanted);
                    assert(false);
                }
            }
        }
        i = i + 1;
    }
    proof {
        if j == pattern.len() {
            assert(pattern@.take(j as int) =~= pattern@);
            lemma_embeds_widen(placed, pattern@, key@, i as int);
        } else {
            assert(key@.take(i as int) =~= key@);
            if fuzzy_matches(pattern@, key@) {
                let idx = choose|idx: Seq<int>| embeds(idx, pattern@, key@);
                lemma_embeds_prefix(idx, pattern@, key@, j + 1, key.len() as int);
                assert(false);
            }
        }
    }
    j == pattern.len()
}

} // verus!
