use vstd::prelude::*;
use vstd::string::*;
use std::collections::HashSet;

use crate::helpers::str_equal;
use crate::team_swapping::team_swap_utils::contains_u64;
use crate::types::{AnimeStatus, ScoreType, Title, UserAnimeInfo, UserList};

verus! {

/// One entry of a user's AniList lists, as the list query gives it. The score
/// is carried as the bit pattern of AniList's floating-point score.
pub struct ListEntryData {
    pub score_bits: u64,
    pub media_id: u64,
    pub title: Title,
    pub notes: Option<String>,
    pub repeat: u64,
    pub status: String,
}

/// Whether an entry before position `n` of `s` has anime `id`.
pub open spec fn id_seen_before(s: Seq<ListEntryData>, n: int, id: u64) -> bool {
    exists|i: int| 0 <= i < n && (#[trigger] s[i]).media_id == id
}

/// `s` with every entry dropped whose anime an earlier entry already has.
pub open spec fn unique_by_id(s: Seq<ListEntryData>) -> Seq<ListEntryData>
    decreases s.len(),
{
    if s.len() == 0 {
        s
    } else if id_seen_before(s, s.len() - 1, s.last().media_id) {
        unique_by_id(s.drop_last())
    } else {
        unique_by_id(s.drop_last()).push(s.last())
    }
}

proof fn lemma_seen_step(s: Seq<ListEntryData>, n: int, id: u64)
    requires
        0 <= n < s.len(),
    ensures
        id_seen_before(s, n + 1, id) <==> (id_seen_before(s, n, id) || s[n].media_id == id),
{
    if id_seen_before(s, n + 1, id) && !(s[n].media_id == id) {
        let i = choose|i: int| 0 <= i < n + 1 && (#[trigger] s[i]).media_id == id;
        assert(i < n);
    }
    if s[n].media_id == id {
        assert(0 <= n < n + 1 && s[n].media_id == id);
    }
    if id_seen_before(s, n, id) {
        let i = choose|i: int| 0 <= i < n && (#[trigger] s[i]).media_id == id;
        assert(0 <= i < n + 1);
    }
}

proof fn lemma_unique_by_id_props(s: Seq<ListEntryData>)
    ensures
        forall|i: int, j: int| 0 <= i < j < unique_by_id(s).len() ==> unique_by_id(s)[i].media_id != unique_by_id(s)[j].media_id,
        forall|i: int| 0 <= i < unique_by_id(s).len() ==> id_seen_before(s, s.len() as int, #[trigger] unique_by_id(s)[i].media_id),
        forall|id: u64| id_seen_before(s, s.len() as int, id) ==> exists|i: int| 0 <= i < unique_by_id(s).len() && #[trigger] unique_by_id(s)[i].media_id == id,
    decreases s.len(),
{
    if s.len() > 0 {
        let t = s.drop_last();
        lemma_unique_by_id_props(t);
        let u = unique_by_id(t);
        assert forall|id: u64| id_seen_before(t, t.len() as int, id) implies id_seen_before(s, s.len() as int, id) by {
            let i = choose|i: int| 0 <= i < t.len() && (#[trigger] t[i]).media_id == id;
            assert(s[i] == t[i]);
        }
        assert forall|id: u64| id_seen_before(s, s.len() - 1, id) <==> id_seen_before(t, t.len() as int, id) by {
            if id_seen_before(s, s.len() - 1, id) {
                let i = choose|i: int| 0 <= i < s.len() - 1 && (#[trigger] s[i]).media_id == id;
                assert(t[i] == s[i]);
            }
            if id_seen_before(t, t.len() as int, id) {
                let i = choose|i: int| 0 <= i < t.len() && (#[trigger] t[i]).media_id == id;
                assert(t[i] == s[i]);
            }
        }
        lemma_seen_step(s, s.len() - 1, s.last().media_id);
        assert forall|id: u64| id_seen_before(s, s.len() as int, id) implies exists|i: int| 0 <= i < unique_by_id(s).len() && #[trigger] unique_by_id(s)[i].media_id == id by {
            lemma_seen_step(s, s.len() - 1, id);
            if id_seen_before(t, t.len() as int, id) {
                let i = choose|i: int| 0 <= i < u.len() && #[trigger] u[i].media_id == id;
                assert(unique_by_id(s)[i] == u[i]);
            } else {
                assert(s.last().media_id == id);
                assert(unique_by_id(s) == u.push(s.last()));
                assert(unique_by_id(s)[u.len() as int].media_id == id);
            }
        }
    }
}

/// Law: keeping the first entry of each anime leaves every anime once, and
/// exactly the anime the entries hold.
pub proof fn lemma_remove_duplicate_ids(s: Seq<ListEntryData>)
    ensures
        forall|i: int, j: int| 0 <= i < j < unique_by_id(s).len() ==> unique_by_id(s)[i].media_id != unique_by_id(s)[j].media_id,
        forall|id: u64| (exists|i: int| 0 <= i < unique_by_id(s).len() && #[trigger] unique_by_id(s)[i].media_id == id)
            <==> id_seen_before(s, s.len() as int, id),
{
    lemma_unique_by_id_props(s);
}

/// Keeps the first entry of each anime, in order.
pub fn remove_duplicate_ids(input: Vec<ListEntryData>) -> (r: Vec<ListEntryData>)
    ensures
        r@ == unique_by_id(input@),
{
    broadcast use vstd::std_specs::hash::group_hash_axioms;
    let mut input = input;
    let ghost all = input@;
    let total = input.len();
    let mut seen: HashSet<u64> = HashSet::new();
    let mut unique: Vec<ListEntryData> = Vec::new();
    let mut taken: usize = 0;
    while input.len() > 0
        invariant
            taken + input@.len() == all.len(),
            all.len() == total,
            input@ == all.skip(taken as int),
            unique@ == unique_by_id(all.take(taken as int)),
            forall|id: u64| seen@.contains(id) <==> id_seen_before(all, taken as int, id),
        decreases input@.len(),
    {
        let e = input.remove(0);
        let ghost t = all.take(taken + 1);
        assert(t.drop_last() =~= all.take(taken as int));
        assert(t.last() == e);
        assert forall|id: u64| id_seen_before(t, taken as int, id) <==> id_seen_before(all, taken as int, id) by {
            if id_seen_before(all, taken as int, id) {
                let i = choose|i: int| 0 <= i < taken && (#[trigger] all[i]).media_id == id;
                assert(t[i] == all[i]);
            }
            if id_seen_before(t, taken as int, id) {
                let i = choose|i: int| 0 <= i < taken && (#[trigger] t[i]).media_id == id;
                assert(t[i] == all[i]);
            }
        }
        let ghost old_seen = seen@;
        let ghost eid = e.media_id;
        if seen.insert(e.media_id) {
            unique.push(e);
        }
        proof {
            assert(seen@ == old_seen.insert(eid));
            assert(all[taken as int].media_id == eid);
            assert forall|id: u64| seen@.contains(id) <==> id_seen_before(all, taken + 1, id) by {
                lemma_seen_step(all, taken as int, id);
            }
        }
        taken = taken + 1;
        assert(input@ =~= all.skip(taken as int));
    }
    assert(all.take(all.len() as int) =~= all);
    unique
}

/// The watching status a list reports, if it is one the bot knows.
pub open spec fn status_of(s: Seq<char>) -> Option<AnimeStatus> {
    if s == "CURRENT"@ {
        Some(AnimeStatus::CURRENT)
    } else if s == "PLANNING"@ {
        Some(AnimeStatus::PLANNING)
    } else if s == "COMPLETED"@ {
        Some(AnimeStatus::COMPLETED)
    } else if s == "DROPPED"@ {
        Some(AnimeStatus::DROPPED)
    } else if s == "PAUSED"@ {
        Some(AnimeStatus::PAUSED)
    } else if s == "REPEATING"@ {
        Some(AnimeStatus::REPEATING)
    } else {
        None
    }
}

/// Reads a watching status.
pub fn parse_anime_status(s: &str) -> (r: Option<AnimeStatus>)
    ensures
        r == status_of(s@),
{
    if str_equal(s, "CURRENT") {
        Some(AnimeStatus::CURRENT)
    } else if str_equal(s, "PLANNING") {
        Some(AnimeStatus::PLANNING)
    } else if str_equal(s, "COMPLETED") {
        Some(AnimeStatus::COMPLETED)
    } else if str_equal(s, "DROPPED") {
        Some(AnimeStatus::DROPPED)
    } else if str_equal(s, "PAUSED") {
        Some(AnimeStatus::PAUSED)
    } else if str_equal(s, "REPEATING") {
        Some(AnimeStatus::REPEATING)
    } else {
        None
    }
}

/// The scoring system a user has set, if it is one the bot knows.
pub open spec fn score_type_of(s: Seq<char>) -> Option<ScoreType> {
    if s == "POINT_100"@ {
        Some(ScoreType::POINT_100)
    } else if s == "POINT_10_DECIMAL"@ {
        Some(ScoreType::POINT_10_DECIMAL)
    } else if s == "POINT_10"@ {
        Some(ScoreType::POINT_10)
    } else if s == "POINT_5"@ {
        Some(ScoreType::POINT_5)
    } else if s == "POINT_3"@ {
        Some(ScoreType::POINT_3)
    } else {
        None
    }
}

/// Reads a scoring system.
pub fn parse_score_type(s: &str) -> (r: Option<ScoreType>)
    ensures
        r == score_type_of(s@),
{
    if str_equal(s, "POINT_100") {
        Some(ScoreType::POINT_100)
    } else if str_equal(s, "POINT_10_DECIMAL") {
        Some(ScoreType::POINT_10_DECIMAL)
    } else if str_equal(s, "POINT_10") {
        Some(ScoreType::POINT_10)
    } else if str_equal(s, "POINT_5") {
        Some(ScoreType::POINT_5)
    } else if str_equal(s, "POINT_3") {
        Some(ScoreType::POINT_3)
    } else {
        None
    }
}

/// The name under which a scoring system is stored.
pub open spec fn score_type_name(t: ScoreType) -> Seq<char> {
    match t {
        ScoreType::POINT_100 => "POINT_100"@,
        ScoreType::POINT_10_DECIMAL => "POINT_10_DECIMAL"@,
        ScoreType::POINT_10 => "POINT_10"@,
        ScoreType::POINT_5 => "POINT_5"@,
        ScoreType::POINT_3 => "POINT_3"@,
    }
}

/// The name under which a scoring system is stored.
pub fn score_type_to_str(t: ScoreType) -> (r: String)
    ensures
        r@ == score_type_name(t),
{
    match t {
        ScoreType::POINT_100 => String::from_str("POINT_100"),
        ScoreType::POINT_10_DECIMAL => String::from_str("POINT_10_DECIMAL"),
        ScoreType::POINT_10 => String::from_str("POINT_10"),
        ScoreType::POINT_5 => String::from_str("POINT_5"),
        ScoreType::POINT_3 => String::from_str("POINT_3"),
    }
}

/// The name under which a watching status is stored.
pub open spec fn status_name(t: AnimeStatus) -> Seq<char> {
    match t {
        AnimeStatus::CURRENT => "CURRENT"@,
        AnimeStatus::PLANNING => "PLANNING"@,
        AnimeStatus::COMPLETED => "COMPLETED"@,
        AnimeStatus::DROPPED => "DROPPED"@,
        AnimeStatus::PAUSED => "PAUSED"@,
        AnimeStatus::REPEATING => "REPEATING"@,
    }
}

/// The name under which a watching status is stored.
pub fn anime_status_to_str(t: AnimeStatus) -> (r: String)
    ensures
        r@ == status_name(t),
{
    match t {
        AnimeStatus::CURRENT => String::from_str("CURRENT"),
        AnimeStatus::PLANNING => String::from_str("PLANNING"),
        AnimeStatus::COMPLETED => String::from_str("COMPLETED"),
        AnimeStatus::DROPPED => String::from_str("DROPPED"),
        AnimeStatus::PAUSED => String::from_str("PAUSED"),
        AnimeStatus::REPEATING => String::from_str("REPEATING"),
    }
}

/// Law: a stored scoring system reads back as itself.
pub proof fn lemma_score_type_round_trip(t: ScoreType)
    ensures
        score_type_of(score_type_name(t)) == Some(t),
{
    reveal_strlit("POINT_100");
    reveal_strlit("POINT_10_DECIMAL");
    reveal_strlit("POINT_10");
    reveal_strlit("POINT_5");
    reveal_strlit("POINT_3");
    assert("POINT_10"@ != "POINT_100"@) by {
        assert("POINT_10"@.len() != "POINT_100"@.len());
    }
    assert("POINT_10_DECIMAL"@ != "POINT_100"@) by { assert("POINT_10_DECIMAL"@[8] != "POINT_100"@[8]); }
    assert("POINT_10_DECIMAL"@ != "POINT_10"@) by {
        assert("POINT_10_DECIMAL"@.len() != "POINT_10"@.len());
    }
    assert("POINT_5"@ != "POINT_100"@) by { assert("POINT_5"@[6] != "POINT_100"@[6]); }
    assert("POINT_5"@ != "POINT_10_DECIMAL"@) by { assert("POINT_5"@[6] != "POINT_10_DECIMAL"@[6]); }
    assert("POINT_5"@ != "POINT_10"@) by {
        assert("POINT_5"@.len() != "POINT_10"@.len());
    }
    assert("POINT_3"@ != "POINT_100"@) by { assert("POINT_3"@[6] != "POINT_100"@[6]); }
    assert("POINT_3"@ != "POINT_10_DECIMAL"@) by { assert("POINT_3"@[6] != "POINT_10_DECIMAL"@[6]); }
    assert("POINT_3"@ != "POINT_10"@) by {
        assert("POINT_3"@.len() != "POINT_10"@.len());
    }
    assert("POINT_3"@ != "POINT_5"@) by {
        assert("POINT_3"@[6] != "POINT_5"@[6]);
    }
}

/// Law: a stored watching status reads back as itself.
pub proof fn lemma_status_round_trip(t: AnimeStatus)
    ensures
        status_of(status_name(t)) == Some(t),
{
    reveal_strlit("CURRENT");
    reveal_strlit("PLANNING");
    reveal_strlit("COMPLETED");
    reveal_strlit("DROPPED");
    reveal_strlit("PAUSED");
    reveal_strlit("REPEATING");
    assert("PLANNING"@ != "CURRENT"@) by { assert("PLANNING"@[0] != "CURRENT"@[0]); }
    assert("COMPLETED"@ != "CURRENT"@) by { assert("COMPLETED"@.len() != "CURRENT"@.len()); }
    assert("COMPLETED"@ != "PLANNING"@) by { assert("COMPLETED"@.len() != "PLANNING"@.len()); }
    assert("DROPPED"@ != "CURRENT"@) by { assert("DROPPED"@[0] != "CURRENT"@[0]); }
    assert("DROPPED"@ != "PLANNING"@) by { assert("DROPPED"@.len() != "PLANNING"@.len()); }
    assert("DROPPED"@ != "COMPLETED"@) by { assert("DROPPED"@.len() != "COMPLETED"@.len()); }
    assert("PAUSED"@ != "CURRENT"@) by { assert("PAUSED"@.len() != "CURRENT"@.len()); }
    assert("PAUSED"@ != "PLANNING"@) by { assert("PAUSED"@.len() != "PLANNING"@.len()); }
    assert("PAUSED"@ != "COMPLETED"@) by { assert("PAUSED"@.len() != "COMPLETED"@.len()); }
    assert("PAUSED"@ != "DROPPED"@) by { assert("PAUSED"@.len() != "DROPPED"@.len()); }
    assert("REPEATING"@ != "CURRENT"@) by { assert("REPEATING"@.len() != "CURRENT"@.len()); }
    assert("REPEATING"@ != "PLANNING"@) by { assert("REPEATING"@.len() != "PLANNING"@.len()); }
    assert("REPEATING"@ != "COMPLETED"@) by { assert("REPEATING"@[0] != "COMPLETED"@[0]); }
    assert("REPEATING"@ != "DROPPED"@) by { assert("REPEATING"@.len() != "DROPPED"@.len()); }
    assert("REPEATING"@ != "PAUSED"@) by { assert("REPEATING"@.len() != "PAUSED"@.len()); }
}

/// All entries of all lists, list after list.
pub open spec fn flatten_lists(lists: Seq<Vec<ListEntryData>>) -> Seq<ListEntryData>
    decreases lists.len(),
{
    if lists.len() == 0 {
        Seq::empty()
    } else {
        flatten_lists(lists.drop_last()) + lists.last()@
    }
}

/// What the server list keeps of an entry: nothing when its status is unknown;
/// otherwise the anime with its titles, score, notes, status and rewatches,
/// marked favourite when it is among the user's favourites.
pub open spec fn info_of(e: ListEntryData, favourites: Seq<u64>) -> Option<UserAnimeInfo> {
    match status_of(e.status@) {
        None => None,
        Some(st) => Some(UserAnimeInfo {
            anime_id: e.media_id,
            titles: e.title,
            score_bits: e.score_bits,
            favourite: favourites.contains(e.media_id),
            notes: e.notes,
            status: st,
            repeats: e.repeat,
        }),
    }
}

/// What the server list keeps of each entry, in order.
pub open spec fn infos_of(s: Seq<ListEntryData>, favourites: Seq<u64>) -> Seq<UserAnimeInfo>
    decreases s.len(),
{
    if s.len() == 0 {
        Seq::empty()
    } else {
        infos_of(s.drop_last(), favourites) + match info_of(s.last(), favourites) {
            Some(i) => seq![i],
            None => Seq::empty(),
        }
    }
}

proof fn lemma_infos_ids(s: Seq<ListEntryData>, favourites: Seq<u64>)
    ensures
        forall|i: int| 0 <= i < infos_of(s, favourites).len() ==>
            exists|k: int| 0 <= k < s.len() && #[trigger] s[k].media_id == (#[trigger] infos_of(s, favourites)[i]).anime_id,
        (forall|a: int, b: int| 0 <= a < b < s.len() ==> s[a].media_id != s[b].media_id) ==>
            forall|i: int, j: int| 0 <= i < j < infos_of(s, favourites).len() ==>
                infos_of(s, favourites)[i].anime_id != infos_of(s, favourites)[j].anime_id,
    decreases s.len(),
{
    if s.len() > 0 {
        let t = s.drop_last();
        lemma_infos_ids(t, favourites);
        let it = infos_of(t, favourites);
        let r = infos_of(s, favourites);
        assert forall|i: int| 0 <= i < r.len() implies
            exists|k: int| 0 <= k < s.len() && #[trigger] s[k].media_id == (#[trigger] r[i]).anime_id by {
            if i < it.len() {
                assert(r[i] == it[i]);
                let k = choose|k: int| 0 <= k < t.len() && #[trigger] t[k].media_id == it[i].anime_id;
                assert(s[k] == t[k]);
            } else {
                assert(s[s.len() - 1].media_id == r[i].anime_id);
            }
        }
        if forall|a: int, b: int| 0 <= a < b < s.len() ==> s[a].media_id != s[b].media_id {
            assert forall|a: int, b: int| 0 <= a < b < t.len() implies t[a].media_id != t[b].media_id by {
                assert(t[a] == s[a] && t[b] == s[b]);
            }
            assert forall|i: int, j: int| 0 <= i < j < r.len() implies r[i].anime_id != r[j].anime_id by {
                if j < it.len() {
                    assert(r[i] == it[i] && r[j] == it[j]);
                } else {
                    assert(r[i] == it[i]);
                    let k = choose|k: int| 0 <= k < t.len() && #[trigger] t[k].media_id == it[i].anime_id;
                    assert(s[k] == t[k]);
                    assert(r[j].anime_id == s[s.len() - 1].media_id);
                }
            }
        }
    }
}

/// Law: the record built from a user's lists holds each anime at most once.
pub proof fn lemma_user_list_each_anime_once(lists: Seq<Vec<ListEntryData>>, favourites: Seq<u64>)
    ensures
        forall|i: int, j: int| 0 <= i < j < infos_of(unique_by_id(flatten_lists(lists)), favourites).len() ==>
            infos_of(unique_by_id(flatten_lists(lists)), favourites)[i].anime_id
                != infos_of(unique_by_id(flatten_lists(lists)), favourites)[j].anime_id,
{
    let u = unique_by_id(flatten_lists(lists));
    lemma_unique_by_id_props(flatten_lists(lists));
    lemma_infos_ids(u, favourites);
}

/// Record `r` keeps what entry `e` says of the anime: the same anime, titles,
/// score, notes, rewatches and watching status, and it is marked favourite
/// exactly when the anime is among `favourites`.
pub open spec fn record_of_entry(r: UserAnimeInfo, e: ListEntryData, favourites: Seq<u64>) -> bool {
    &&& r.anime_id == e.media_id
    &&& r.titles == e.title
    &&& r.score_bits == e.score_bits
    &&& r.notes == e.notes
    &&& r.repeats == e.repeat
    &&& status_of(e.status@) == Some(r.status)
    &&& r.favourite == favourites.contains(e.media_id)
}

proof fn lemma_unique_from(s: Seq<ListEntryData>)
    ensures
        forall|i: int| 0 <= i < unique_by_id(s).len() ==>
            exists|k: int| 0 <= k < s.len() && s[k] == #[trigger] unique_by_id(s)[i],
    decreases s.len(),
{
    if s.len() > 0 {
        let t = s.drop_last();
        lemma_unique_from(t);
        let u = unique_by_id(s);
        assert forall|i: int| 0 <= i < u.len() implies exists|k: int| 0 <= k < s.len() && s[k] == #[trigger] u[i] by {
            if i < unique_by_id(t).len() {
                assert(u[i] == unique_by_id(t)[i]);
                let k = choose|k: int| 0 <= k < t.len() && t[k] == unique_by_id(t)[i];
                assert(s[k] == t[k]);
            } else {
                assert(u[i] == s[s.len() - 1]);
            }
        }
    }
}

proof fn lemma_infos_from(s: Seq<ListEntryData>, favourites: Seq<u64>)
    ensures
        forall|i: int| 0 <= i < infos_of(s, favourites).len() ==>
            exists|k: int| 0 <= k < s.len() && record_of_entry(#[trigger] infos_of(s, favourites)[i], s[k], favourites),
    decreases s.len(),
{
    if s.len() > 0 {
        let t = s.drop_last();
        lemma_infos_from(t, favourites);
        let it = infos_of(t, favourites);
        let r = infos_of(s, favourites);
        assert forall|i: int| 0 <= i < r.len() implies
            exists|k: int| 0 <= k < s.len() && record_of_entry(#[trigger] r[i], s[k], favourites) by {
            if i < it.len() {
                assert(r[i] == it[i]);
                let k = choose|k: int| 0 <= k < t.len() && record_of_entry(it[i], t[k], favourites);
                assert(s[k] == t[k]);
            } else {
                assert(record_of_entry(r[i], s[s.len() - 1], favourites));
            }
        }
    }
}

/// Law: every anime of the record built from a user's lists comes from an
/// entry of those lists and keeps what it says: the same anime, titles,
/// score, notes, rewatches and watching status, whatever the status is, and
/// it is marked favourite exactly when it is one of the user's favourites.
pub proof fn lemma_user_list_keeps_entries(lists: Seq<Vec<ListEntryData>>, favourites: Seq<u64>)
    ensures
        forall|i: int| 0 <= i < infos_of(unique_by_id(flatten_lists(lists)), favourites).len() ==>
            exists|k: int| 0 <= k < flatten_lists(lists).len() && record_of_entry(
                #[trigger] infos_of(unique_by_id(flatten_lists(lists)), favourites)[i],
                flatten_lists(lists)[k],
                favourites,
            ),
{
    let all = flatten_lists(lists);
    let u = unique_by_id(all);
    let r = infos_of(u, favourites);
    lemma_unique_from(all);
    lemma_infos_from(u, favourites);
    assert forall|i: int| 0 <= i < r.len() implies exists|k: int| 0 <= k < all.len() && record_of_entry(#[trigger] r[i], all[k], favourites) by {
        let j = choose|j: int| 0 <= j < u.len() && record_of_entry(r[i], u[j], favourites);
        let k = choose|k: int| 0 <= k < all.len() && all[k] == #[trigger] u[j];
        assert(record_of_entry(r[i], all[k], favourites));
    }
}

/// The scoring system the list uses: the one set, or POINT_10 when unknown.
pub open spec fn list_score_type(s: Seq<char>) -> ScoreType {
    match score_type_of(s) {
        Some(t) => t,
        None => ScoreType::POINT_10,
    }
}

/// Joins the lists of a user into one, list after list.
pub fn flatten_entry_lists(lists: Vec<Vec<ListEntryData>>) -> (r: Vec<ListEntryData>)
    ensures
        r@ == flatten_lists(lists@),
{
    let mut lists = lists;
    let ghost all = lists@;
    let total = lists.len();
    let mut out: Vec<ListEntryData> = Vec::new();
    let mut taken: usize = 0;
    while lists.len() > 0
        invariant
            taken + lists@.len() == all.len(),
            all.len() == total,
            lists@ == all.skip(taken as int),
            out@ == flatten_lists(all.take(taken as int)),
        decreases lists@.len(),
    {
        let mut l = lists.remove(0);
        assert(all.take(taken + 1).drop_last() =~= all.take(taken as int));
        assert(all.take(taken + 1).last() == l);
        out.append(&mut l);
        taken = taken + 1;
        assert(lists@ =~= all.skip(taken as int));
    }
    assert(all.take(all.len() as int) =~= all);
    out
}

/// Builds the server-list record of a user from the entries of their lists:
/// each anime once (its first entry), entries of unknown status left out,
/// favourites marked, and the scoring system read (POINT_10 when unknown).
pub fn get_user_list(username: &str, user_id: u64, score_format: &str, lists: Vec<Vec<ListEntryData>>, favourite_ids: &Vec<u64>) -> (r: UserList)
    ensures
        r.user_id == user_id,
        r.user_name@ == username@,
        r.user_score_type == list_score_type(score_format@),
        r.anime@ == infos_of(unique_by_id(flatten_lists(lists@)), favourite_ids@),
{
    let list = flatten_entry_lists(lists);
    let uniques = remove_duplicate_ids(list);
    let mut uniques = uniques;
    let ghost all = uniques@;
    let total = uniques.len();
    let mut info_list: Vec<UserAnimeInfo> = Vec::new();
    let mut taken: usize = 0;
    while uniques.len() > 0
        invariant
            taken + uniques@.len() == all.len(),
            all.len() == total,
            uniques@ == all.skip(taken as int),
            info_list@ == infos_of(all.take(taken as int), favourite_ids@),
        decreases uniques@.len(),
    {
        let anime = uniques.remove(0);
        assert(all.take(taken + 1).drop_last() =~= all.take(taken as int));
        assert(all.take(taken + 1).last() == anime);
        let status = parse_anime_status(anime.status.as_str());
        match status {
            None => {
                assert(info_list@ =~= infos_of(all.take(taken + 1), favourite_ids@));
            },
            Some(st) => {
                let favourite = contains_u64(favourite_ids, anime.media_id);
                let info = UserAnimeInfo {
                    anime_id: anime.media_id,
                    titles: anime.title,
                    score_bits: anime.score_bits,
                    favourite,
                    notes: anime.notes,
                    status: st,
                    repeats: anime.repeat,
                };
                info_list.push(info);
                assert(info_list@ =~= infos_of(all.take(taken + 1), favourite_ids@));
            },
        }
        taken = taken + 1;
        assert(uniques@ =~= all.skip(taken as int));
    }
    assert(all.take(all.len() as int) =~= all);
    let score_type = match parse_score_type(score_format) {
        Some(t) => t,
        None => ScoreType::POINT_10,
    };
    UserList { user_id, user_name: String::from_str(username), user_score_type: score_type, anime: info_list }
}

/// The titles of stored anime, each anime's romaji, native and English title
/// where they exist.
pub open spec fn titles_of(ts: Seq<Title>) -> Seq<Seq<char>>
    decreases ts.len(),
{
    if ts.len() == 0 {
        Seq::empty()
    } else {
        titles_of(ts.drop_last()) + opt_title(ts.last().romaji) + opt_title(ts.last().native) + opt_title(ts.last().english)
    }
}

/// A title that may be missing, as zero or one titles.
pub open spec fn opt_title(o: Option<String>) -> Seq<Seq<char>> {
    match o {
        Some(s) => seq![s@],
        None => Seq::empty(),
    }
}

fn push_opt_title(out: &mut Vec<String>, o: &Option<String>)
    ensures
        crate::types::strings_view(final(out)@) == crate::types::strings_view(old(out)@) + opt_title(*o),
{
    match o {
        Some(s) => out.push(s.clone()),
        None => {},
    }
    assert(crate::types::strings_view(out@) =~= crate::types::strings_view(old(out)@) + opt_title(*o));
}

/// All titles of the anime on the server list, for completing a name.
pub fn collect_server_titles(titles: &Vec<Title>) -> (r: Vec<String>)
    ensures
        crate::types::strings_view(r@) == titles_of(titles@),
{
    let mut out: Vec<String> = Vec::new();
    let mut i: usize = 0;
    while i < titles.len()
        invariant
            i <= titles@.len(),
            crate::types::strings_view(out@) == titles_of(titles@.take(i as int)),
        decreases titles@.len() - i,
    {
        push_opt_title(&mut out, &titles[i].romaji);
        push_opt_title(&mut out, &titles[i].native);
        push_opt_title(&mut out, &titles[i].english);
        assert(titles@.take(i + 1).drop_last() =~= titles@.take(i as int));
        i = i + 1;
    }
    assert(titles@.take(titles@.len() as int) =~= titles@);
    out
}

} // verus!
