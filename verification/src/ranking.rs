//! The ranking rule: an entry's order key is the quality of its match plus a
//! bonus for past use, capped so that match quality decides between matches
//! of clearly different strength. Keys are exact fractions.

use crate::domain::{UsageScore, MAX_DAYS_PLUS_ONE};
use vstd::prelude::*;
use vstd::seq_lib::lemma_multiset_commutative;

verus! {

/// The cap of the usage bonus.
pub const MAX_USAGE_BONUS: u64 = 30;

/// How many bonus points one unit of usage score is worth.
pub const BONUS_PER_SCORE: u64 = 10;

/// A usage bonus as an exact fraction.
#[derive(Debug, Clone, Copy, PartialEq, Eq, Structural)]
pub struct UsageBonus {
    pub numerator: u64,
    pub denominator: u64,
}

/// Ten times the usage score, capped at thirty.
pub open spec fn bonus_of(score: UsageScore) -> UsageBonus {
    UsageBonus {
        numerator: vstd::math::min(
            BONUS_PER_SCORE * score.uses,
            MAX_USAGE_BONUS * score.days_plus_one,
        ) as u64,
        denominator: score.days_plus_one,
    }
}

/// Computes `bonus_of`. The bonus lies between zero and thirty.
pub fn usage_bonus(score: UsageScore) -> (bonus: UsageBonus)
    requires
        score.wf(),
    ensures
        bonus == bonus_of(score),
        bonus.denominator >= 1,
        0 <= bonus.numerator <= MAX_USAGE_BONUS * bonus.denominator,
{
    let scaled: u64 = BONUS_PER_SCORE * (score.uses as u64);
    let cap: u64 = MAX_USAGE_BONUS * score.days_plus_one;
    UsageBonus {
        numerator: if scaled <= cap {
            scaled
        } else {
            cap
        },
        denominator: score.days_plus_one,
    }
}

/// An order key as an exact fraction; the greater key sorts first.
#[derive(Debug, Clone, Copy, PartialEq, Eq, Structural)]
pub struct OrderKey {
    pub numerator: u128,
    pub denominator: u64,
}

impl OrderKey {
    /// The fraction has a denominator within the span of the clock and a
    /// value that a raw score and a bonus can add up to.
    pub open spec fn wf(self) -> bool {
        &&& 1 <= self.denominator <= MAX_DAYS_PLUS_ONE
        &&& self.numerator <= (u16::MAX + MAX_USAGE_BONUS) * self.denominator
    }

    /// Whether this key is greater than `other`.
    pub fn outranks(&self, other: &OrderKey) -> (r: bool)
        requires
            self.wf(),
            other.wf(),
        ensures
            r == outranks(*self, *other),
    {
        proof {
            lemma_cross_product_fits(*self, *other);
            lemma_cross_product_fits(*other, *self);
        }
        self.numerator * (other.denominator as u128) > other.numerator * (self.denominator as u128)
    }

    /// Whether this key equals `other` in value.
    pub fn ties_with(&self, other: &OrderKey) -> (r: bool)
        requires
            self.wf(),
            other.wf(),
        ensures
            r == ties(*self, *other),
    {
        proof {
            lemma_cross_product_fits(*self, *other);
            lemma_cross_product_fits(*other, *self);
        }
        self.numerator * (other.denominator as u128) == other.numerator * (self.denominator as u128)
    }
}

/// The key `a` is greater than the key `b`.
pub open spec fn outranks(a: OrderKey, b: OrderKey) -> bool {
    a.numerator * b.denominator > b.numerator * a.denominator
}

/// The keys `a` and `b` are equal in value.
pub open spec fn ties(a: OrderKey, b: OrderKey) -> bool {
    a.numerator * b.denominator == b.numerator * a.denominator
}

/// The raw score plus the usage bonus.
pub open spec fn order_key_of(raw_score: u16, score: UsageScore) -> OrderKey {
    OrderKey {
        numerator: (raw_score * score.days_plus_one + bonus_of(score).numerator) as u128,
        denominator: score.days_plus_one,
    }
}

/// A usage score taken from an entry and an instant makes a sound order key.
pub proof fn lemma_order_key_wf(raw_score: u16, uses: u32, last_used: Option<i64>, now: i64)
    ensures
        crate::domain::usage_score(uses, last_used, now).wf(),
        order_key_of(raw_score, crate::domain::usage_score(uses, last_used, now)).wf(),
{
    let score = crate::domain::usage_score(uses, last_used, now);
    assert(score.wf());
    lemma_scaled_raw_fits(raw_score, score.days_plus_one);
}

/// Computes `order_key_of`. The key exceeds the raw score by the bonus, that
/// is by at most thirty.
pub fn compose_key(raw_score: u16, score: UsageScore) -> (key: OrderKey)
    requires
        score.wf(),
    ensures
        key == order_key_of(raw_score, score),
        key.wf(),
        raw_score * key.denominator <= key.numerator <= (raw_score + MAX_USAGE_BONUS)
            * key.denominator,
{
    let bonus = usage_bonus(score);
    proof {
        lemma_scaled_raw_fits(raw_score, score.days_plus_one);
    }
    let scaled: u128 = (raw_score as u128) * (score.days_plus_one as u128);
    OrderKey { numerator: scaled + (bonus.numerator as u128), denominator: score.days_plus_one }
}

/// A raw score times a denominator, and with the greatest bonus added, stays
/// within the bounds of a sound order key.
proof fn lemma_scaled_raw_fits(raw_score: u16, days_plus_one: u64)
    requires
        1 <= days_plus_one <= MAX_DAYS_PLUS_ONE,
    ensures
        0 <= raw_score * days_plus_one <= u16::MAX * days_plus_one,
        (raw_score + MAX_USAGE_BONUS) * days_plus_one == raw_score * days_plus_one
            + MAX_USAGE_BONUS * days_plus_one,
        (raw_score + MAX_USAGE_BONUS) * days_plus_one <= (u16::MAX + MAX_USAGE_BONUS)
            * days_plus_one,
        (u16::MAX + MAX_USAGE_BONUS) * days_plus_one <= 0x1_0000_0000_0000_0000_0000,
{
    let most: int = u16::MAX + MAX_USAGE_BONUS;
    let raw: int = raw_score as int;
    let days: int = days_plus_one as int;
    assert(0 <= raw * days <= 0xffff * days) by (nonlinear_arith)
        requires
            0 <= raw <= 0xffff,
            1 <= days,
    ;
    assert((raw + 30) * days == raw * days + 30 * days) by (nonlinear_arith);
    assert((raw + 30) * days <= most * days) by (nonlinear_arith)
        requires
            0 <= raw + 30 <= most,
            1 <= days,
    ;
    assert(most * days <= 0x1_0000_0000_0000_0000_0000) by (nonlinear_arith)
        requires
            most == 65565,
            1 <= days <= 0x1_0000_0000_0000,
    ;
}

/// The cross product of two sound order keys fits 128 bits.
proof fn lemma_cross_product_fits(a: OrderKey, b: OrderKey)
    requires
        a.wf(),
        b.wf(),
    ensures
        0 <= a.numerator * b.denominator <= u128::MAX,
{
    let most: int = u16::MAX + MAX_USAGE_BONUS;
    let top: int = a.numerator as int;
    let below: int = a.denominator as int;
    let other: int = b.denominator as int;
    assert(top <= 0x2_0000_0000_0000_0000) by (nonlinear_arith)
        requires
            top <= most * below,
            most == 65565,
            1 <= below <= 0x1_0000_0000_0000,
    ;
    assert(0 <= top * other <= 0x2_0000_0000_0000_0000 * 0x1_0000_0000_0000) by (nonlinear_arith)
        requires
            0 <= top <= 0x2_0000_0000_0000_0000,
            0 <= other <= 0x1_0000_0000_0000,
    ;
}

/// One entry to be ranked: the handle of an item and its order key.
#[derive(Debug, Clone, Copy, PartialEq, Eq, Structural)]
pub struct Ranked {
    pub handle: usize,
    pub key: OrderKey,
}

/// `a` is shown before `b`: its key is greater, or the keys tie and `a` comes
/// first in the corpus.
pub open spec fn ranks_before(a: Ranked, b: Ranked) -> bool {
    outranks(a.key, b.key) || (ties(a.key, b.key) && a.handle < b.handle)
}

/// No entry of `s` stands behind one that it ranks before.
pub open spec fn in_rank_order(s: Seq<Ranked>) -> bool {
    forall|i: int, j: int| 0 <= i < j < s.len() ==> !ranks_before(#[trigger] s[j], #[trigger] s[i])
}

/// Every key in `s` is well formed.
pub open spec fn keys_wf(s: Seq<Ranked>) -> bool {
    forall|i: int| 0 <= i < s.len() ==> (#[trigger] s[i]).key.wf()
}

/// No two entries of `s` carry the same handle.
pub open spec fn distinct_handles(s: Seq<Ranked>) -> bool {
    forall|i: int, j: int|
        0 <= i < j < s.len() ==> (#[trigger] s[i]).handle != (#[trigger] s[j]).handle
}

/// `ranked` holds the entries of `entries`, each as often, in rank order.
pub open spec fn is_ranking_of(ranked: Seq<Ranked>, entries: Seq<Ranked>) -> bool {
    ranked.to_multiset() == entries.to_multiset() && in_rank_order(ranked)
}

/// Comparing fractions by cross products is transitive: with positive
/// denominators, `a >= b` and `b >= c` give `a >= c`, strictly where one of
/// the two is strict.
pub proof fn lemma_key_order_transitive(a: OrderKey, b: OrderKey, c: OrderKey)
    requires
        a.denominator >= 1,
        b.denominator >= 1,
        c.denominator >= 1,
        !outranks(b, a),
        !outranks(c, b),
    ensures
        !outranks(c, a),
        outranks(a, b) || outranks(b, c) ==> outranks(a, c),
{
    let an: int = a.numerator as int;
    let ad: int = a.denominator as int;
    let bn: int = b.numerator as int;
    let bd: int = b.denominator as int;
    let cn: int = c.numerator as int;
    let cd: int = c.denominator as int;
    assert(an * cd >= cn * ad && ((an * bd > bn * ad || bn * cd > cn * bd) ==> an * cd > cn * ad))
        by (nonlinear_arith)
        requires
            ad >= 1,
            bd >= 1,
            cd >= 1,
            an >= 0,
            bn >= 0,
            cn >= 0,
            an * bd >= bn * ad,
            bn * cd >= cn * bd,
    {
        assert((an * bd) * cd >= (bn * ad) * cd);
        assert((bn * cd) * ad >= (cn * bd) * ad);
        assert((an * cd) * bd == (an * bd) * cd);
        assert((bn * ad) * cd == (bn * cd) * ad);
        assert((cn * bd) * ad == (cn * ad) * bd);
        assert((an * cd) * bd >= (cn * ad) * bd);
        if an * cd < cn * ad {
            assert((an * cd) * bd < (cn * ad) * bd);
        }
        if an * bd > bn * ad {
            assert((an * bd) * cd > (bn * ad) * cd);
            if an * cd <= cn * ad {
                assert((an * cd) * bd <= (cn * ad) * bd);
            }
        }
        if bn * cd > cn * bd {
            assert((bn * cd) * ad > (cn * bd) * ad);
            if an * cd <= cn * ad {
                assert((an * cd) * bd <= (cn * ad) * bd);
            }
        }
    }
}

/// Rank order is transitive: if `y` does not rank before `x`, nor `z` before
/// `y`, then `z` does not rank before `x`.
pub proof fn lemma_rank_order_transitive(x: Ranked, y: Ranked, z: Ranked)
    requires
        x.key.denominator >= 1,
        y.key.denominator >= 1,
        z.key.denominator >= 1,
        !ranks_before(y, x),
        !ranks_before(z, y),
    ensures
        !ranks_before(z, x),
{
    lemma_key_order_transitive(x.key, y.key, z.key);
}

/// Entries with distinct handles have one ranking only.
pub proof fn lemma_ranking_is_unique(a: Seq<Ranked>, b: Seq<Ranked>)
    requires
        a.to_multiset() == b.to_multiset(),
        in_rank_order(a),
        in_rank_order(b),
        distinct_handles(a),
    ensures
        a == b,
    decreases a.len(),
{
    a.to_multiset_ensures();
    b.to_multiset_ensures();
    if a.len() == 0 {
        assert(a =~= b);
    } else {
        assert(a.contains(a[0]));
        assert(a.to_multiset().count(a[0]) > 0);
        assert(b.to_multiset().count(a[0]) > 0);
        assert(b.contains(a[0]));
        let k = choose|k: int| 0 <= k < b.len() && b[k] == a[0];
        assert(b.contains(b[0]));
        assert(b.to_multiset().count(b[0]) > 0);
        assert(a.to_multiset().count(b[0]) > 0);
        assert(a.contains(b[0]));
        let m = choose|m: int| 0 <= m < a.len() && a[m] == b[0];
        if m > 0 && k > 0 {
            assert(!ranks_before(a[m], a[0]));
            assert(!ranks_before(b[k], b[0]));
            assert(a[0].handle == a[m].handle);
            assert(false);
        }
        assert(a[0] == b[0]);
        let rest_a = a.remove(0);
        let rest_b = b.remove(0);
        vstd::seq_lib::to_multiset_remove(a, 0);
        vstd::seq_lib::to_multiset_remove(b, 0);
        assert forall|i: int, j: int| 0 <= i < j < rest_a.len() implies !ranks_before(
            #[trigger] rest_a[j],
            #[trigger] rest_a[i],
        ) && rest_a[i].handle != rest_a[j].handle by {
            assert(rest_a[i] == a[i + 1] && rest_a[j] == a[j + 1]);
        }
        assert forall|i: int, j: int| 0 <= i < j < rest_b.len() implies !ranks_before(
            #[trigger] rest_b[j],
            #[trigger] rest_b[i],
        ) by {
            assert(rest_b[i] == b[i + 1] && rest_b[j] == b[j + 1]);
        }
        lemma_ranking_is_unique(rest_a, rest_b);
        assert forall|i: int| 0 <= i < a.len() implies a[i] == b[i] by {
            if i > 0 {
                assert(rest_a[i - 1] == a[i]);
                assert(rest_b[i - 1] == b[i]);
            }
        }
        assert(a =~= b);
    }
}

/// A ranking holds the entries it ranks and no others, and where those carry
/// distinct handles, so does the ranking.
pub proof fn lemma_ranking_same_members(ranked: Seq<Ranked>, entries: Seq<Ranked>)
    requires
        ranked.to_multiset() == entries.to_multiset(),
    ensures
        ranked.len() == entries.len(),
        forall|k: int| 0 <= k < ranked.len() ==> entries.contains(#[trigger] ranked[k]),
        forall|k: int| 0 <= k < entries.len() ==> ranked.contains(#[trigger] entries[k]),
        distinct_handles(entries) ==> distinct_handles(ranked),
{
    ranked.to_multiset_ensures();
    entries.to_multiset_ensures();
    assert forall|k: int| 0 <= k < ranked.len() implies entries.contains(#[trigger] ranked[k]) by {
        assert(ranked.contains(ranked[k]));
        assert(ranked.to_multiset().count(ranked[k]) > 0);
        assert(entries.to_multiset().count(ranked[k]) > 0);
    }
    assert forall|k: int| 0 <= k < entries.len() implies ranked.contains(#[trigger] entries[k]) by {
        assert(entries.contains(entries[k]));
        assert(entries.to_multiset().count(entries[k]) > 0);
        assert(ranked.to_multiset().count(entries[k]) > 0);
    }
    if distinct_handles(entries) {
        assert(entries.no_duplicates());
        entries.lemma_multiset_has_no_duplicates();
        ranked.lemma_multiset_has_no_duplicates_conv();
        assert forall|i: int, j: int| 0 <= i < j < ranked.len() implies (
        #[trigger] ranked[i]).handle != (#[trigger] ranked[j]).handle by {
            assert(entries.contains(ranked[i]));
            assert(entries.contains(ranked[j]));
            let p = choose|p: int| 0 <= p < entries.len() && entries[p] == ranked[i];
            let q = choose|q: int| 0 <= q < entries.len() && entries[q] == ranked[j];
            assert(ranked[i] != ranked[j]);
            assert(p != q);
            if p < q {
                assert(entries[p].handle != entries[q].handle);
            } else {
                assert(entries[q].handle != entries[p].handle);
            }
        }
    }
}

/// The ranking of `entries`; it is the only one where their handles are
/// distinct.
pub open spec fn ranking_of(entries: Seq<Ranked>) -> Seq<Ranked> {
    choose|ranked: Seq<Ranked>| is_ranking_of(ranked, entries)
}

/// Every sequence of entries with sound keys has a ranking.
pub proof fn lemma_ranking_exists(entries: Seq<Ranked>)
    requires
        keys_wf(entries),
    ensures
        is_ranking_of(ranking_of(entries), entries),
    decreases entries.len(),
{
    if entries.len() == 0 {
        assert(is_ranking_of(entries, entries));
    } else {
        let last = entries.last();
        let front = entries.drop_last();
        assert forall|i: int| 0 <= i < front.len() implies (#[trigger] front[i]).key.wf() by {
            assert(front[i] == entries[i]);
        }
        lemma_ranking_exists(front);
        let ranked = ranking_of(front);
        lemma_ranking_same_members(ranked, front);
        assert forall|i: int| 0 <= i < ranked.len() implies (#[trigger] ranked[i]).key.wf() by {
            assert(front.contains(ranked[i]));
        }
        let at = place_of(ranked, last, 0);
        lemma_place_of(ranked, last, 0);
        let grown = ranked.insert(at, last);
        assert forall|i: int, j: int| 0 <= i < j < grown.len() implies !ranks_before(
            #[trigger] grown[j],
            #[trigger] grown[i],
        ) by {
            if j < at {
                assert(grown[i] == ranked[i] && grown[j] == ranked[j]);
            } else if j == at {
                assert(grown[i] == ranked[i]);
            } else if i < at {
                assert(grown[i] == ranked[i] && grown[j] == ranked[j - 1]);
            } else if i == at {
                assert(grown[j] == ranked[j - 1]);
                if j - 1 > at {
                    lemma_rank_order_transitive(last, ranked[at], ranked[j - 1]);
                }
            } else {
                assert(grown[i] == ranked[i - 1] && grown[j] == ranked[j - 1]);
            }
        }
        assert(grown.to_multiset() =~= entries.to_multiset()) by {
            broadcast use vstd::multiset::group_multiset_axioms;

            assert(grown.remove(at) =~= ranked);
            vstd::seq_lib::to_multiset_remove(grown, at);
            assert(entries =~= front.push(last));
            vstd::seq_lib::to_multiset_build(front, last);
            grown.to_multiset_ensures();
            assert(grown.to_multiset().count(last) > 0);
            assert(grown.to_multiset() =~= grown.to_multiset().remove(last).insert(last));
        }
        assert(is_ranking_of(grown, entries));
    }
}

/// The place of `e` among the entries of `ranked` from `from` on: that of
/// the first entry that `e` ranks before, or the length of `ranked` if there
/// is none.
pub open spec fn place_of(ranked: Seq<Ranked>, e: Ranked, from: int) -> int
    decreases ranked.len() - from,
{
    if from < 0 || from >= ranked.len() {
        ranked.len() as int
    } else if ranks_before(e, ranked[from]) {
        from
    } else {
        place_of(ranked, e, from + 1)
    }
}

/// `place_of` lies between `from` and the length; `e` ranks before no entry
/// from `from` up to it, and before the entry at it.
proof fn lemma_place_of(ranked: Seq<Ranked>, e: Ranked, from: int)
    requires
        0 <= from <= ranked.len(),
    ensures
        from <= place_of(ranked, e, from) <= ranked.len(),
        forall|i: int|
            from <= i < place_of(ranked, e, from) ==> !ranks_before(
                e,
                #[trigger] ranked[i],
            ),
        place_of(ranked, e, from) < ranked.len() ==> ranks_before(
            e,
            ranked[place_of(ranked, e, from)],
        ),
    decreases ranked.len() - from,
{
    if from < ranked.len() && !ranks_before(e, ranked[from]) {
        lemma_place_of(ranked, e, from + 1);
    }
}

/// Merges two runs in rank order into one.
fn merge(left: &Vec<Ranked>, right: &Vec<Ranked>) -> (merged: Vec<Ranked>)
    requires
        keys_wf(left@),
        keys_wf(right@),
        in_rank_order(left@),
        in_rank_order(right@),
    ensures
        keys_wf(merged@),
        in_rank_order(merged@),
        merged@.to_multiset() == left@.to_multiset().add(right@.to_multiset()),
{
    broadcast use vstd::seq_lib::group_to_multiset_ensures;

    let mut merged: Vec<Ranked> = Vec::new();
    let mut i: usize = 0;
    let mut j: usize = 0;
    assert(left@.take(0) =~= Seq::empty());
    assert(right@.take(0) =~= Seq::empty());
    assert(merged@.to_multiset() =~= left@.take(0).to_multiset().add(right@.take(0).to_multiset()));
    while i < left.len() || j < right.len()
        invariant
            i <= left.len(),
            j <= right.len(),
            keys_wf(left@),
            keys_wf(right@),
            in_rank_order(left@),
            in_rank_order(right@),
            keys_wf(merged@),
            in_rank_order(merged@),
            merged@.to_multiset() == left@.take(i as int).to_multiset().add(
                right@.take(j as int).to_multiset(),
            ),
            forall|k: int, x: int|
                0 <= k < merged.len() && i <= x < left.len() ==> !ranks_before(
                    #[trigger] left[x],
                    #[trigger] merged[k],
                ),
            forall|k: int, y: int|
                0 <= k < merged.len() && j <= y < right.len() ==> !ranks_before(
                    #[trigger] right[y],
                    #[trigger] merged[k],
                ),
        decreases left.len() - i + right.len() - j,
    {
        let ghost before = merged@;
        let ghost taken_left = left@.take(i as int);
        let ghost taken_right = right@.take(j as int);
        let take_left = if j == right.len() {
            true
        } else if i == left.len() {
            false
        } else {
            let l = left[i];
            let r = right[j];
            !(r.key.outranks(&l.key) || (r.key.ties_with(&l.key) && r.handle < l.handle))
        };
        if take_left {
            let e = left[i];
            proof {
                assert(left@.take(i + 1) =~= left@.take(i as int).push(e));
                assert forall|y: int| j <= y < right.len() implies !ranks_before(
                    #[trigger] right[y],
                    e,
                ) by {
                    if y > j {
                        lemma_rank_order_transitive(e, right[j as int], right[y]);
                    }
                }
            }
            merged.push(e);
            i = i + 1;
            proof {
                broadcast use vstd::multiset::group_multiset_axioms;

                assert(left@.take(i as int) == taken_left.push(e));
                vstd::seq_lib::to_multiset_build(taken_left, e);
                vstd::seq_lib::to_multiset_build(before, e);
                assert(merged@.to_multiset() =~= left@.take(i as int).to_multiset().add(
                    right@.take(j as int).to_multiset(),
                ));
            }
        } else {
            let e = right[j];
            proof {
                assert(right@.take(j + 1) =~= right@.take(j as int).push(e));
                assert forall|x: int| i <= x < left.len() implies !ranks_before(
                    #[trigger] left[x],
                    e,
                ) by {
                    if x > i {
                        lemma_rank_order_transitive(e, left[i as int], left[x]);
                    }
                }
            }
            merged.push(e);
            j = j + 1;
            proof {
                broadcast use vstd::multiset::group_multiset_axioms;

                assert(right@.take(j as int) == taken_right.push(e));
                vstd::seq_lib::to_multiset_build(taken_right, e);
                vstd::seq_lib::to_multiset_build(before, e);
                assert(merged@.to_multiset() =~= left@.take(i as int).to_multiset().add(
                    right@.take(j as int).to_multiset(),
                ));
            }
        }
        proof {
            assert forall|a: int, b: int| 0 <= a < b < merged.len() implies !ranks_before(
                #[trigger] merged[b],
                #[trigger] merged[a],
            ) by {
                if b < before.len() {
                    assert(merged[a] == before[a] && merged[b] == before[b]);
                } else {
                    assert(merged[a] == before[a]);
                }
            }
            assert forall|k: int, x: int|
                0 <= k < merged.len() && i <= x < left.len() implies !ranks_before(
                #[trigger] left[x],
                #[trigger] merged[k],
            ) by {
                if k < before.len() {
                    assert(merged[k] == before[k]);
                }
            }
            assert forall|k: int, y: int|
                0 <= k < merged.len() && j <= y < right.len() implies !ranks_before(
                #[trigger] right[y],
                #[trigger] merged[k],
            ) by {
                if k < before.len() {
                    assert(merged[k] == before[k]);
                }
            }
            assert forall|k: int| 0 <= k < merged.len() implies (#[trigger] merged[k]).key.wf() by {
                if k < before.len() {
                    assert(merged[k] == before[k]);
                }
            }
        }
    }
    assert(left@.take(left.len() as int) =~= left@);
    assert(right@.take(right.len() as int) =~= right@);
    merged
}

/// Ranks the entries `entries[from..to]`.
fn rank_range(entries: &Vec<Ranked>, from: usize, to: usize) -> (ranked: Vec<Ranked>)
    requires
        from <= to <= entries.len(),
        keys_wf(entries@),
    ensures
        keys_wf(ranked@),
        is_ranking_of(ranked@, entries@.subrange(from as int, to as int)),
    decreases to - from,
{
    broadcast use vstd::seq_lib::group_to_multiset_ensures;

    let ghost part = entries@.subrange(from as int, to as int);
    if to - from <= 1 {
        let mut ranked: Vec<Ranked> = Vec::new();
        if to - from == 1 {
            ranked.push(entries[from]);
        }
        assert(ranked@ =~= part);
        ranked
    } else {
        let middle = from + (to - from) / 2;
        let left = rank_range(entries, from, middle);
        let right = rank_range(entries, middle, to);
        proof {
            let first = entries@.subrange(from as int, middle as int);
            let second = entries@.subrange(middle as int, to as int);
            assert(part =~= first + second);
            lemma_multiset_commutative(first, second);
        }
        merge(&left, &right)
    }
}

/// Puts `entries` in rank order: greater keys first, equal keys by handle.
pub fn rank(entries: &Vec<Ranked>) -> (ranked: Vec<Ranked>)
    requires
        keys_wf(entries@),
    ensures
        keys_wf(ranked@),
        is_ranking_of(ranked@, entries@),
        ranked.len() == entries.len(),
        distinct_handles(entries@) ==> ranked@ == ranking_of(entries@),
{
    assert(entries@.subrange(0, entries.len() as int) =~= entries@);
    let ranked = rank_range(entries, 0, entries.len());
    proof {
        lemma_ranking_same_members(ranked@, entries@);
        if distinct_handles(entries@) {
            lemma_ranking_is_unique(ranked@, ranking_of(entries@));
        }
    }
    ranked
}

} // verus!
