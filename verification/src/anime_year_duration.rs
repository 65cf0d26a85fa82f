use vstd::prelude::*;
use vstd::string::*;

use crate::text::{decimal, push_decimal};

verus! {

/// What the year query gives of an anime.
pub struct YearMedia {
    pub title_romaji: String,
    pub episodes: Option<u64>,
    pub duration: Option<u64>,
}

/// An anime with its number of episodes and the minutes of each, where known.
pub struct AnimeLength {
    pub anime_name: String,
    pub anime_episode_count: Option<u64>,
    pub anime_episode_length: Option<u64>,
}

impl AnimeLength {
    /// The length record of a queried anime.
    pub fn from_media(media: YearMedia) -> (r: AnimeLength)
        ensures
            r.anime_name == media.title_romaji,
            r.anime_episode_count == media.episodes,
            r.anime_episode_length == media.duration,
    {
        AnimeLength {
            anime_name: media.title_romaji,
            anime_episode_count: media.episodes,
            anime_episode_length: media.duration,
        }
    }
}

/// A number that may be unknown, unknown counting as 0.
pub open spec fn or_zero(o: Option<u64>) -> nat {
    match o {
        Some(x) => x as nat,
        None => 0,
    }
}

/// The minutes an anime lasts: episodes times minutes per episode.
pub open spec fn minutes_of(a: AnimeLength) -> nat {
    or_zero(a.anime_episode_count) * or_zero(a.anime_episode_length)
}

/// The minutes of all the anime together.
pub open spec fn total_minutes(s: Seq<AnimeLength>) -> nat
    decreases s.len(),
{
    if s.len() == 0 {
        0
    } else {
        total_minutes(s.drop_last()) + minutes_of(s.last())
    }
}

/// Adds a page of a year's anime to those gathered so far and tells whether
/// to ask for another page: an empty page ends the year.
pub fn add_year_page(anime: &mut Vec<AnimeLength>, page: Vec<AnimeLength>) -> (more: bool)
    ensures
        final(anime)@ == old(anime)@ + page@,
        more == (page@.len() > 0),
{
    let more = page.len() > 0;
    let mut page = page;
    anime.append(&mut page);
    more
}

/// How many minutes an anime lasts (unknown counts count as 0).
pub fn count_minutes_of_anime(anime: &AnimeLength) -> (r: u64)
    requires
        minutes_of(*anime) <= u64::MAX,
    ensures
        r == minutes_of(*anime),
{
    let episode_count = match anime.anime_episode_count {
        Some(count) => count,
        None => 0,
    };
    let episode_length = match anime.anime_episode_length {
        Some(length) => length,
        None => 0,
    };
    episode_count * episode_length
}

/// The sentence that tells how much anime a year has.
pub open spec fn year_message(season_year: Seq<char>, minutes: nat) -> Seq<char> {
    "The year "@ + season_year + " has "@ + decimal(minutes / 60) + " hours and "@ + decimal(minutes % 60)
        + " minutes of anime!"@
}

/// Law: the sentence about a year names whole hours and the minutes left
/// over, and together they are exactly the year's minutes: hours times 60
/// plus minutes gives the total, with fewer than 60 minutes left over.
pub proof fn lemma_year_message_recomposes(season_year: Seq<char>, minutes: nat)
    ensures
        exists|hours: nat, rest: nat|
            #![trigger decimal(hours), decimal(rest)]
            hours * 60 + rest == minutes && rest < 60
            && year_message(season_year, minutes) == "The year "@ + season_year + " has "@ + decimal(hours)
                + " hours and "@ + decimal(rest) + " minutes of anime!"@,
{
    let hours = minutes / 60;
    let rest = minutes % 60;
    assert(hours * 60 + rest == minutes);
    assert(year_message(season_year, minutes) == "The year "@ + season_year + " has "@ + decimal(hours)
        + " hours and "@ + decimal(rest) + " minutes of anime!"@);
}

/// Tells how many hours and minutes of anime aired in a year; `None` when the
/// total of minutes does not fit in 64 bits.
pub fn anime_in_year(season_year: &str, anime: &Vec<AnimeLength>) -> (r: Option<String>)
    ensures
        total_minutes(anime@) <= u64::MAX ==> (r matches Some(m) && m@ == year_message(season_year@, total_minutes(anime@))),
        total_minutes(anime@) > u64::MAX ==> r is None,
{
    let mut total: u64 = 0;
    let mut i: usize = 0;
    while i < anime.len()
        invariant
            i <= anime@.len(),
            total == total_minutes(anime@.take(i as int)),
        decreases anime@.len() - i,
    {
        let a = &anime[i];
        assert(anime@.take(i + 1).drop_last() =~= anime@.take(i as int));
        let c: u64 = match a.anime_episode_count { Some(x) => x, None => 0 };
        let l: u64 = match a.anime_episode_length { Some(x) => x, None => 0 };
        let m = c.checked_mul(l);
        let sum = match m {
            None => None,
            Some(m) => total.checked_add(m),
        };
        match sum {
            None => {
                proof {
                    assert(minutes_of(anime@[i as int]) == c * l);
                    assert(total_minutes(anime@.take(i + 1)) == total + c * l);
                    lemma_total_grows(anime@, i + 1);
                }
                return None;
            },
            Some(t) => total = t,
        }
        i = i + 1;
    }
    assert(anime@.take(anime@.len() as int) =~= anime@);
    let mut msg = String::from_str("The year ");
    msg.append(season_year);
    msg.append(" has ");
    push_decimal(&mut msg, total / 60);
    msg.append(" hours and ");
    push_decimal(&mut msg, total % 60);
    msg.append(" minutes of anime!");
    Some(msg)
}

proof fn lemma_total_grows(s: Seq<AnimeLength>, k: int)
    requires
        0 <= k <= s.len(),
    ensures
        total_minutes(s.take(k)) <= total_minutes(s),
    decreases s.len() - k,
{
    if k < s.len() {
        lemma_total_grows(s, k + 1);
        assert(s.take(k + 1).drop_last() =~= s.take(k));
    } else {
        assert(s.take(k) =~= s);
    }
}

} // verus!
