use vstd::prelude::*;

use crate::sorting::{insertion_sorted, lemma_insert_at, lemma_insertion_sorted};
use crate::types::AnimeScored;

verus! {

/// The scores two users gave to an anime on both their lists.
#[derive(PartialEq, Eq, Structural, Clone, Copy, Debug)]
pub struct AnimeScores {
    pub id: u64,
    pub score1: u64,
    pub score2: u64,
}

/// Whether `a` may stay before `b` when ordering by anime id: its id is not larger.
pub open spec fn by_id() -> spec_fn(AnimeScored, AnimeScored) -> bool {
    |a: AnimeScored, b: AnimeScored| a.id <= b.id
}

/// `s` ordered by id, elements with equal ids keeping their order (a stable sort).
pub open spec fn sorted_by_id(s: Seq<AnimeScored>) -> Seq<AnimeScored> {
    insertion_sorted(s, by_id())
}

/// The ids of `s` never decrease.
pub open spec fn ordered_by_id(s: Seq<AnimeScored>) -> bool {
    forall|i: int, j: int| 0 <= i <= j < s.len() ==> s[i].id <= s[j].id
}

/// The ids of `s` strictly increase: `s` is ordered and names each anime once.
pub open spec fn strictly_ordered_by_id(s: Seq<AnimeScored>) -> bool {
    forall|i: int, j: int| 0 <= i < j < s.len() ==> s[i].id < s[j].id
}

/// The order of `sorted_by_id`: ordered by id and a rearrangement of the input.
pub proof fn lemma_sorted_by_id(s: Seq<AnimeScored>)
    ensures
        ordered_by_id(sorted_by_id(s)),
        sorted_by_id(s).to_multiset() == s.to_multiset(),
        sorted_by_id(s).len() == s.len(),
{
    lemma_insertion_sorted(s, by_id());
    let r = sorted_by_id(s);
    assert forall|i: int, j: int| 0 <= i <= j < r.len() implies r[i].id <= r[j].id by {
        assert(by_id()(r[i], r[j]));
    }
}

/// Orders a list by anime id, keeping the order of entries with equal ids
/// (what `sort_by_key(|f| f.id)` does).
pub fn sort_by_id(list: Vec<AnimeScored>) -> (r: Vec<AnimeScored>)
    ensures
        r@ == sorted_by_id(list@),
{
    let mut out: Vec<AnimeScored> = Vec::new();
    let mut i: usize = 0;
    while i < list.len()
        invariant
            i <= list@.len(),
            out@ == sorted_by_id(list@.take(i as int)),
        decreases list@.len() - i,
    {
        let x = list[i];
        let mut p = out.len();
        while p > 0 && out[p - 1].id > x.id
            invariant
                p <= out@.len(),
                forall|k: int| p <= k < out@.len() ==> (#[trigger] out@[k]).id > x.id,
            decreases p,
        {
            p = p - 1;
        }
        proof {
            lemma_insert_at(out@, x, by_id(), p as int);
            assert(list@.take(i + 1).drop_last() =~= list@.take(i as int));
        }
        out.insert(p, x);
        i = i + 1;
    }
    assert(list@.take(list@.len() as int) =~= list@);
    out
}

/// The walk that pairs the scores of two id-ordered lists, from position `i`
/// of the first and `j` of the second: the side with the smaller id moves on;
/// equal ids give a pair and both move on.
pub open spec fn merge_scores(s1: Seq<AnimeScored>, s2: Seq<AnimeScored>, i: int, j: int) -> Seq<AnimeScores>
    decreases s1.len() - i + s2.len() - j,
{
    if i < 0 || j < 0 || i >= s1.len() || j >= s2.len() {
        Seq::empty()
    } else if s2[j].id > s1[i].id {
        merge_scores(s1, s2, i + 1, j)
    } else if s2[j].id < s1[i].id {
        merge_scores(s1, s2, i, j + 1)
    } else {
        seq![AnimeScores { id: s1[i].id, score1: s1[i].score, score2: s2[j].score }]
            + merge_scores(s1, s2, i + 1, j + 1)
    }
}

/// The score of the first entry of `s` for anime `id`, if there is one.
pub open spec fn score_of(s: Seq<AnimeScored>, id: u64) -> Option<u64>
    decreases s.len(),
{
    if s.len() == 0 {
        None
    } else if s[0].id == id {
        Some(s[0].score)
    } else {
        score_of(s.drop_first(), id)
    }
}

/// The anime of `s1` that `s2` also scores, in the order of `s1`, each with
/// both scores.
pub open spec fn shared_scores(s1: Seq<AnimeScored>, s2: Seq<AnimeScored>) -> Seq<AnimeScores>
    decreases s1.len(),
{
    if s1.len() == 0 {
        Seq::empty()
    } else {
        (match score_of(s2, s1[0].id) {
            Some(sc) => seq![AnimeScores { id: s1[0].id, score1: s1[0].score, score2: sc }],
            None => Seq::empty(),
        }) + shared_scores(s1.drop_first(), s2)
    }
}

proof fn lemma_score_of_skip(s: Seq<AnimeScored>, j: int, id: u64)
    requires
        0 <= j <= s.len(),
        forall|k: int| 0 <= k < j ==> (#[trigger] s[k]).id < id,
    ensures
        score_of(s, id) == score_of(s.skip(j), id),
    decreases j,
{
    if j > 0 {
        assert(s.skip(j) =~= s.drop_first().skip(j - 1));
        lemma_score_of_skip(s.drop_first(), j - 1, id);
    } else {
        assert(s.skip(0) =~= s);
    }
}

proof fn lemma_score_of_absent(s: Seq<AnimeScored>, id: u64)
    requires
        s.len() > 0,
        strictly_ordered_by_id(s),
        s[0].id > id,
    ensures
        score_of(s, id) is None,
    decreases s.len(),
{
    let t = s.drop_first();
    assert(score_of(s, id) == score_of(t, id));
    if s.len() > 1 {
        assert(s[0].id < s[1].id);
        assert(strictly_ordered_by_id(t)) by {
            assert forall|i: int, j: int| 0 <= i < j < t.len() implies t[i].id < t[j].id by {
                assert(t[i] == s[i + 1] && t[j] == s[j + 1]);
            }
        }
        lemma_score_of_absent(t, id);
    } else {
        assert(t.len() == 0);
        assert(score_of(t, id) is None);
    }
}

proof fn lemma_merge_is_shared(s1: Seq<AnimeScored>, s2: Seq<AnimeScored>, i: int, j: int)
    requires
        strictly_ordered_by_id(s1),
        strictly_ordered_by_id(s2),
        0 <= i <= s1.len(),
        0 <= j <= s2.len(),
        forall|k: int| 0 <= k < j ==> i < s1.len() ==> (#[trigger] s2[k]).id < s1[i].id,
    ensures
        merge_scores(s1, s2, i, j) == shared_scores(s1.skip(i), s2),
    decreases s1.len() - i + s2.len() - j,
{
    let t = s1.skip(i);
    if i >= s1.len() {
        assert(t.len() == 0);
    } else if j >= s2.len() {
        // every anime left in s1 comes after all of s2
        lemma_shared_none_after(s1, s2, i);
    } else {
        lemma_score_of_skip(s2, j, s1[i].id);
        assert(t[0] == s1[i]);
        assert(t.drop_first() =~= s1.skip(i + 1));
        if s2[j].id > s1[i].id {
            lemma_score_of_absent(s2.skip(j), s1[i].id);
            lemma_merge_is_shared(s1, s2, i + 1, j);
        } else if s2[j].id < s1[i].id {
            lemma_merge_is_shared(s1, s2, i, j + 1);
        } else {
            assert(s2.skip(j)[0] == s2[j]);
            if i + 1 < s1.len() {
                assert forall|k: int| 0 <= k < j + 1 implies (#[trigger] s2[k]).id < s1[i + 1].id by {
                    assert(s1[i].id < s1[i + 1].id);
                }
            }
            lemma_merge_is_shared(s1, s2, i + 1, j + 1);
        }
    }
}

proof fn lemma_shared_none_after(s1: Seq<AnimeScored>, s2: Seq<AnimeScored>, i: int)
    requires
        strictly_ordered_by_id(s1),
        0 <= i <= s1.len(),
        forall|k: int| 0 <= k < s2.len() ==> i < s1.len() ==> (#[trigger] s2[k]).id < s1[i].id,
    ensures
        shared_scores(s1.skip(i), s2) == Seq::<AnimeScores>::empty(),
    decreases s1.len() - i,
{
    if i < s1.len() {
        let t = s1.skip(i);
        lemma_score_of_skip(s2, s2.len() as int, s1[i].id);
        assert(s2.skip(s2.len() as int) =~= Seq::<AnimeScored>::empty());
        assert(t[0] == s1[i]);
        assert(t.drop_first() =~= s1.skip(i + 1));
        if i + 1 < s1.len() {
            assert forall|k: int| 0 <= k < s2.len() implies (#[trigger] s2[k]).id < s1[i + 1].id by {
                assert(s1[i].id < s1[i + 1].id);
            }
        }
        lemma_shared_none_after(s1, s2, i + 1);
    } else {
        assert(s1.skip(i).len() == 0);
    }
}

/// Law: on two lists that are ordered by id and name each anime once, the
/// pairing walk gives exactly the anime both lists score, in order, each with
/// the score from either list.
pub proof fn lemma_match_scores_shared(s1: Seq<AnimeScored>, s2: Seq<AnimeScored>)
    requires
        strictly_ordered_by_id(s1),
        strictly_ordered_by_id(s2),
    ensures
        merge_scores(s1, s2, 0, 0) == shared_scores(s1, s2),
{
    lemma_merge_is_shared(s1, s2, 0, 0);
    assert(s1.skip(0) =~= s1);
}

/// The ids of `s` are pairwise different: `s` names each anime once.
pub open spec fn distinct_ids(s: Seq<AnimeScored>) -> bool {
    forall|i: int, j: int| 0 <= i < j < s.len() ==> s[i].id != s[j].id
}

proof fn lemma_score_of_found(s: Seq<AnimeScored>, id: u64)
    ensures
        score_of(s, id) is None ==> forall|k: int| 0 <= k < s.len() ==> (#[trigger] s[k]).id != id,
        score_of(s, id) matches Some(sc) ==> s.contains(AnimeScored { id, score: sc }),
    decreases s.len(),
{
    if s.len() > 0 {
        let t = s.drop_first();
        lemma_score_of_found(t, id);
        if s[0].id == id {
            assert(s[0] == AnimeScored { id, score: s[0].score });
        } else {
            assert forall|k: int| 0 <= k < s.len() && score_of(s, id) is None implies (#[trigger] s[k]).id != id by {
                if k > 0 {
                    assert(s[k] == t[k - 1]);
                }
            }
            if let Some(sc) = score_of(s, id) {
                let k = choose|k: int| 0 <= k < t.len() && t[k] == AnimeScored { id, score: sc };
                assert(s[k + 1] == t[k]);
            }
        }
    }
}

proof fn lemma_index_of(s: Seq<AnimeScored>, e: AnimeScored) -> (k: int)
    requires
        s.contains(e),
    ensures
        0 <= k < s.len(),
        s[k] == e,
{
    choose|k: int| 0 <= k < s.len() && s[k] == e
}

proof fn lemma_score_of_same_elements(t: Seq<AnimeScored>, u: Seq<AnimeScored>, id: u64)
    requires
        distinct_ids(t),
        t.to_multiset() == u.to_multiset(),
    ensures
        score_of(t, id) == score_of(u, id),
{
    broadcast use vstd::seq_lib::group_to_multiset_ensures;
    lemma_score_of_found(t, id);
    lemma_score_of_found(u, id);
    match score_of(t, id) {
        Some(sc) => {
            let e = AnimeScored { id, score: sc };
            assert(t.to_multiset().count(e) > 0);
            assert(u.contains(e));
            let ku = lemma_index_of(u, e);
            assert(u[ku].id == id);
            if let Some(sc2) = score_of(u, id) {
                let e2 = AnimeScored { id, score: sc2 };
                assert(u.to_multiset().count(e2) > 0);
                assert(t.contains(e2));
                let k1 = lemma_index_of(t, e);
                let k2 = lemma_index_of(t, e2);
                assert(k1 == k2);
            }
        },
        None => {
            if let Some(sc2) = score_of(u, id) {
                let e2 = AnimeScored { id, score: sc2 };
                assert(u.to_multiset().count(e2) > 0);
                assert(t.contains(e2));
                let k2 = lemma_index_of(t, e2);
                assert(t[k2].id == id);
            }
        },
    }
}

proof fn lemma_shared_scores_same_scores(s1: Seq<AnimeScored>, t: Seq<AnimeScored>, u: Seq<AnimeScored>)
    requires
        forall|id: u64| #[trigger] score_of(t, id) == score_of(u, id),
    ensures
        shared_scores(s1, t) == shared_scores(s1, u),
    decreases s1.len(),
{
    if s1.len() > 0 {
        assert(score_of(t, s1[0].id) == score_of(u, s1[0].id));
        lemma_shared_scores_same_scores(s1.drop_first(), t, u);
    }
}

proof fn lemma_distinct_ids_kept(t: Seq<AnimeScored>, u: Seq<AnimeScored>)
    requires
        distinct_ids(t),
        t.to_multiset() == u.to_multiset(),
    ensures
        distinct_ids(u),
{
    broadcast use vstd::seq_lib::group_to_multiset_ensures;
    assert(t.no_duplicates()) by {
        assert forall|i: int, j: int| 0 <= i < t.len() && 0 <= j < t.len() && i != j implies t[i] != t[j] by {
            if i < j {
                assert(t[i].id != t[j].id);
            } else {
                assert(t[j].id != t[i].id);
            }
        }
    }
    t.lemma_multiset_has_no_duplicates();
    u.lemma_multiset_has_no_duplicates_conv();
    assert forall|i: int, j: int| 0 <= i < j < u.len() implies u[i].id != u[j].id by {
        if u[i].id == u[j].id {
            assert(u[i] != u[j]);
            assert(u.to_multiset().count(u[i]) > 0);
            assert(u.to_multiset().count(u[j]) > 0);
            let k1 = lemma_index_of(t, u[i]);
            let k2 = lemma_index_of(t, u[j]);
            if k1 < k2 {
                assert(t[k1].id != t[k2].id);
            } else if k2 < k1 {
                assert(t[k2].id != t[k1].id);
            }
        }
    }
}

/// Law: the pairing of a list with another list that names each anime once
/// does not depend on the order of that other list: sorted by id, any
/// rearrangement of it pairs exactly the anime both lists hold, each with its
/// two scores.
pub proof fn lemma_pairing_ignores_order(s1: Seq<AnimeScored>, s2: Seq<AnimeScored>, s3: Seq<AnimeScored>)
    requires
        strictly_ordered_by_id(s1),
        distinct_ids(s2),
        s3.to_multiset() == s2.to_multiset(),
    ensures
        merge_scores(s1, sorted_by_id(s3), 0, 0) == shared_scores(s1, s2),
{
    let r = sorted_by_id(s3);
    lemma_sorted_by_id(s3);
    lemma_distinct_ids_kept(s2, r);
    assert(strictly_ordered_by_id(r)) by {
        assert forall|i: int, j: int| 0 <= i < j < r.len() implies r[i].id < r[j].id by {
            assert(r[i].id <= r[j].id);
            assert(r[i].id != r[j].id);
        }
    }
    lemma_match_scores_shared(s1, r);
    assert forall|id: u64| #[trigger] score_of(s2, id) == score_of(r, id) by {
        lemma_score_of_same_elements(s2, r, id);
    }
    lemma_shared_scores_same_scores(s1, s2, r);
}

/// Pairs the scores of the anime that two id-ordered lists both hold.
pub fn match_scores(list1: &Vec<AnimeScored>, list2: &Vec<AnimeScored>) -> (r: Vec<AnimeScores>)
    ensures
        r@ == merge_scores(list1@, list2@, 0, 0),
        strictly_ordered_by_id(list1@) && strictly_ordered_by_id(list2@) ==> r@ == shared_scores(list1@, list2@),
{
    let mut out: Vec<AnimeScores> = Vec::new();
    let mut index1: usize = 0;
    let mut index2: usize = 0;
    while index1 < list1.len() && index2 < list2.len()
        invariant
            index1 <= list1@.len(),
            index2 <= list2@.len(),
            out@ + merge_scores(list1@, list2@, index1 as int, index2 as int) == merge_scores(list1@, list2@, 0, 0),
        decreases list1@.len() - index1 + list2@.len() - index2,
    {
        if list2[index2].id > list1[index1].id {
            index1 = index1 + 1;
        } else if list2[index2].id < list1[index1].id {
            index2 = index2 + 1;
        } else {
            let e = AnimeScores { id: list1[index1].id, score1: list1[index1].score, score2: list2[index2].score };
            let ghost rest = merge_scores(list1@, list2@, index1 + 1, index2 + 1);
            assert(out@.push(e) + rest =~= out@ + (seq![e] + rest));
            out.push(e);
            index1 = index1 + 1;
            index2 = index2 + 1;
        }
    }
    assert(out@ =~= out@ + merge_scores(list1@, list2@, index1 as int, index2 as int));
    proof {
        if strictly_ordered_by_id(list1@) && strictly_ordered_by_id(list2@) {
            lemma_match_scores_shared(list1@, list2@);
        }
    }
    out
}

/// The sum of the differences between the two scores of each pair.
pub open spec fn total_abs_difference_spec(s: Seq<AnimeScores>) -> nat
    decreases s.len(),
{
    if s.len() == 0 {
        0
    } else {
        total_abs_difference_spec(s.drop_last()) + (if s.last().score1 >= s.last().score2 {
            (s.last().score1 - s.last().score2) as nat
        } else {
            (s.last().score2 - s.last().score1) as nat
        })
    }
}

proof fn lemma_total_append(a: Seq<AnimeScores>, b: Seq<AnimeScores>)
    ensures
        total_abs_difference_spec(a + b) == total_abs_difference_spec(a) + total_abs_difference_spec(b),
    decreases b.len(),
{
    if b.len() == 0 {
        assert(a + b =~= a);
    } else {
        lemma_total_append(a, b.drop_last());
        assert((a + b).drop_last() =~= a + b.drop_last());
    }
}

/// Law: the total difference of a list of pairs is the sum of the totals of
/// its parts, and a single pair counts exactly the distance between its two
/// scores: no less than either score minus the other, and equal to one of them.
pub proof fn lemma_total_abs_difference(a: Seq<AnimeScores>, b: Seq<AnimeScores>, p: AnimeScores)
    ensures
        total_abs_difference_spec(a + b) == total_abs_difference_spec(a) + total_abs_difference_spec(b),
        total_abs_difference_spec(seq![p]) >= p.score1 - p.score2,
        total_abs_difference_spec(seq![p]) >= p.score2 - p.score1,
        total_abs_difference_spec(seq![p]) == p.score1 - p.score2
            || total_abs_difference_spec(seq![p]) == p.score2 - p.score1,
{
    lemma_total_append(a, b);
    assert(seq![p].drop_last() =~= Seq::<AnimeScores>::empty());
    assert(seq![p].last() == p);
    assert(total_abs_difference_spec(Seq::<AnimeScores>::empty()) == 0);
}

/// Adds up how far apart the two scores of each pair are: the numerator of
/// the mean absolute difference.
pub fn total_abs_difference(scores: &Vec<AnimeScores>) -> (r: u128)
    ensures
        r == total_abs_difference_spec(scores@),
{
    let mut total: u128 = 0;
    let mut i: usize = 0;
    while i < scores.len()
        invariant
            i <= scores@.len(),
            total == total_abs_difference_spec(scores@.take(i as int)),
            total <= i * (u64::MAX as int),
        decreases scores@.len() - i,
    {
        let e = scores[i];
        let d: u64 = if e.score1 >= e.score2 { e.score1 - e.score2 } else { e.score2 - e.score1 };
        assert(scores@.take(i + 1).drop_last() =~= scores@.take(i as int));
        assert(i * (u64::MAX as int) + u64::MAX <= (i + 1) * (u64::MAX as int)) by (nonlinear_arith);
        assert((i + 1) * (u64::MAX as int) <= usize::MAX * (u64::MAX as int)) by (nonlinear_arith)
            requires i + 1 <= usize::MAX;
        assert(usize::MAX * (u64::MAX as int) < u128::MAX) by (nonlinear_arith)
            requires usize::MAX <= u64::MAX;
        total = total + d as u128;
        i = i + 1;
    }
    assert(scores@.take(scores@.len() as int) =~= scores@);
    total
}

/// Each pair with its two scores swapped.
pub open spec fn swap_scores(s: Seq<AnimeScores>) -> Seq<AnimeScores> {
    s.map_values(|p: AnimeScores| AnimeScores { id: p.id, score1: p.score2, score2: p.score1 })
}

proof fn lemma_merge_swapped(s1: Seq<AnimeScored>, s2: Seq<AnimeScored>, i: int, j: int)
    ensures
        merge_scores(s2, s1, j, i) == swap_scores(merge_scores(s1, s2, i, j)),
    decreases s1.len() - i + s2.len() - j,
{
    if i < 0 || j < 0 || i >= s1.len() || j >= s2.len() {
        assert(swap_scores(Seq::<AnimeScores>::empty()) =~= Seq::<AnimeScores>::empty());
    } else if s2[j].id > s1[i].id {
        lemma_merge_swapped(s1, s2, i + 1, j);
    } else if s2[j].id < s1[i].id {
        lemma_merge_swapped(s1, s2, i, j + 1);
    } else {
        lemma_merge_swapped(s1, s2, i + 1, j + 1);
        let e = AnimeScores { id: s1[i].id, score1: s1[i].score, score2: s2[j].score };
        let rest = merge_scores(s1, s2, i + 1, j + 1);
        assert(swap_scores(seq![e] + rest) =~= seq![AnimeScores { id: s2[j].id, score1: s2[j].score, score2: s1[i].score }] + swap_scores(rest));
    }
}

proof fn lemma_total_swapped(s: Seq<AnimeScores>)
    ensures
        total_abs_difference_spec(swap_scores(s)) == total_abs_difference_spec(s),
    decreases s.len(),
{
    if s.len() > 0 {
        lemma_total_swapped(s.drop_last());
        assert(swap_scores(s).drop_last() =~= swap_scores(s.drop_last()));
    }
}

/// Law: matching two lists the other way round pairs the same anime, each with
/// its two scores swapped, so the two users differ by the same total either way.
pub proof fn lemma_match_scores_symmetric(s1: Seq<AnimeScored>, s2: Seq<AnimeScored>)
    ensures
        merge_scores(s2, s1, 0, 0) == swap_scores(merge_scores(s1, s2, 0, 0)),
        total_abs_difference_spec(merge_scores(s2, s1, 0, 0)) == total_abs_difference_spec(merge_scores(s1, s2, 0, 0)),
{
    lemma_merge_swapped(s1, s2, 0, 0);
    lemma_total_swapped(merge_scores(s1, s2, 0, 0));
}

/// An entry of a user's list as the compatibility check reads it: the anime
/// and its score, if the user scored it.
pub struct ScoreEntry {
    pub score: Option<u64>,
    pub media_id: u64,
}

/// The scored entries of a list, in order.
pub open spec fn scored_entries(s: Seq<ScoreEntry>) -> Seq<AnimeScored>
    decreases s.len(),
{
    if s.len() == 0 {
        Seq::empty()
    } else {
        scored_entries(s.drop_last()) + match s.last().score {
            Some(sc) => seq![AnimeScored { id: s.last().media_id, score: sc }],
            None => Seq::empty(),
        }
    }
}

/// The scored anime of a user's first list (none when the user has no list).
pub fn get_anime_list(lists: &Vec<Vec<ScoreEntry>>) -> (r: Vec<AnimeScored>)
    ensures
        lists@.len() == 0 ==> r@.len() == 0,
        lists@.len() > 0 ==> r@ == scored_entries(lists@[0]@),
{
    let mut anime: Vec<AnimeScored> = Vec::new();
    if lists.len() == 0 {
        return anime;
    }
    let list = &lists[0];
    let mut i: usize = 0;
    while i < list.len()
        invariant
            i <= list@.len(),
            anime@ == scored_entries(list@.take(i as int)),
        decreases list@.len() - i,
    {
        match list[i].score {
            Some(s) => anime.push(AnimeScored { id: list[i].media_id, score: s }),
            None => {},
        }
        assert(list@.take(i + 1).drop_last() =~= list@.take(i as int));
        assert(anime@ =~= scored_entries(list@.take(i + 1)));
        i = i + 1;
    }
    assert(list@.take(list@.len() as int) =~= list@);
    anime
}

/// The most times the list query is retried after AniList limits the rate.
pub open spec fn max_retries() -> u64 {
    60
}

/// What to do when AniList answers that the rate is exceeded, after `retries`
/// earlier retries: give up (`None`) once 60 were made; else retry once more,
/// waiting twice the new retry count in seconds (the new count is returned).
pub fn after_rate_limit(retries: u64) -> (r: Option<u64>)
    ensures
        retries >= max_retries() ==> r is None,
        retries < max_retries() ==> r == Some((retries + 1) as u64),
{
    if retries >= 60 {
        None
    } else {
        Some(retries + 1)
    }
}

/// How many followed users AniList lists on a full page.
pub open spec fn friends_page_size() -> nat {
    50
}

/// Adds a page of followed users' names to those gathered so far and tells
/// whether another page follows: a page shorter than a full one is the last.
pub fn add_friend_page(friends: &mut Vec<String>, page: Vec<String>) -> (more: bool)
    ensures
        final(friends)@ == old(friends)@ + page@,
        more == (page@.len() >= friends_page_size()),
{
    let more = page.len() >= 50;
    let mut page = page;
    friends.append(&mut page);
    more
}

} // verus!
