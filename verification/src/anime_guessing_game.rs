use vstd::prelude::*;
use vstd::string::*;

use crate::helpers::{get_random_element_from_vec, os_random_index, random_index, take_element_at};
use crate::text::{decimal, push_decimal, push_str};
use crate::helpers::{get_typed_hint, hint_kind_name};
use crate::types::{
    AnimeGuess, Hint, HintView, Staff, Tag, hints_view, staff_view, strings_view, tags_view,
    view_kind_name,
};

verus! {

/// The word that describes a score of 0..=100.
pub open spec fn rank_label(n: u64) -> Seq<char> {
    if n == 0 {
        "unscored"@
    } else if n < 20 {
        "very low"@
    } else if n <= 50 {
        "low"@
    } else if n <= 65 {
        "middling"@
    } else if n <= 75 {
        "high"@
    } else if n <= 90 {
        "very high"@
    } else if n <= 100 {
        "extremely high"@
    } else {
        "out of range"@
    }
}

/// Describes a score of 0..=100 in words.
pub fn rank_weight(number: u64) -> (r: String)
    ensures
        r@ == rank_label(number),
{
    if number == 0 {
        String::from_str("unscored")
    } else if number > 0 && number < 20 {
        String::from_str("very low")
    } else if number >= 20 && number <= 50 {
        String::from_str("low")
    } else if number > 50 && number <= 65 {
        String::from_str("middling")
    } else if number > 65 && number <= 75 {
        String::from_str("high")
    } else if number > 75 && number <= 90 {
        String::from_str("very high")
    } else if number > 90 && number <= 100 {
        String::from_str("extremely high")
    } else {
        String::from_str("out of range")
    }
}

/// `s` between double asterisks (bold in Discord markdown).
pub open spec fn bold(s: Seq<char>) -> Seq<char> {
    "**"@ + s + "**"@
}

/// Whether `pick` may choose the element that a hint reveals: a hint with a
/// list reveals one element of it, picked by its index.
pub open spec fn pick_ok(h: HintView, pick: int) -> bool {
    match h {
        HintView::Genres(v) => v.len() == 0 || 0 <= pick < v.len(),
        HintView::Studios(v) => v.len() == 0 || 0 <= pick < v.len(),
        HintView::VoiceActors(v) => v.len() == 0 || 0 <= pick < v.len(),
        HintView::Tag(v) => v.len() == 0 || 0 <= pick < v.len(),
        HintView::Staff(v) => v.len() == 0 || 0 <= pick < v.len(),
        _ => true,
    }
}

/// The message that reveals hint `h`, with `pick` choosing the element of a list.
pub open spec fn hint_text(h: HintView, pick: int) -> Seq<char> {
    match h {
        HintView::SeasonYear(x) => "This anime started airing in the year "@ + bold(decimal(x as nat)),
        HintView::UserScore(x) => "You gave this anime a "@ + bold(rank_label(x)) + " score"@,
        HintView::AverageScore(x) => "On AL this anime has a "@ + bold(rank_label(x)) + " average score"@,
        HintView::Format(s) => "The format of this anime is: "@ + bold(s),
        HintView::Season(s) => "This anime aired in the "@ + bold(s) + " season"@,
        HintView::Source(s) => "The source of this anime is: "@ + bold(s),
        HintView::Genres(v) => if v.len() == 0 {
            "weh"@
        } else {
            bold(v[pick]) + " is one of this anime's genres"@
        },
        HintView::Tag(v) => if v.len() == 0 {
            "weh"@
        } else {
            bold(v[pick].name) + " is one of this anime's tags and it has a "@ + bold(rank_label(v[pick].rank)) + " rating"@
        },
        HintView::Studios(v) => if v.len() == 0 {
            "weh"@
        } else {
            "This anime was made by "@ + bold(v[pick])
        },
        HintView::VoiceActors(v) => if v.len() == 0 {
            "weh"@
        } else {
            bold(v[pick]) + " voiced a main character in this show"@
        },
        HintView::Staff(v) => if v.len() == 0 {
            "weh"@
        } else {
            bold(v[pick].name) + " worked on this anime with the role of: "@ + bold(v[pick].role)
        },
    }
}

/// What remains of hint `h` once it was revealed with `pick`: genres and tags
/// keep their other elements while any are left; every other hint is used up.
pub open spec fn hint_rest(h: HintView, pick: int) -> Option<HintView> {
    match h {
        HintView::Genres(v) => if v.len() > 1 { Some(HintView::Genres(v.remove(pick))) } else { None },
        HintView::Tag(v) => if v.len() > 1 { Some(HintView::Tag(v.remove(pick))) } else { None },
        _ => None,
    }
}

/// The hints that stay after a reveal: the rest of the revealed hint, if any.
pub open spec fn rest_seq(o: Option<HintView>) -> Seq<HintView> {
    match o {
        Some(x) => seq![x],
        None => Seq::empty(),
    }
}

/// The message given when no hint is left.
pub open spec fn no_hints_text() -> Seq<char> {
    "No hints are left!"@
}

/// Copies a tag field by field.
fn clone_tag(t: &Tag) -> (r: Tag)
    ensures
        r@ == t@,
{
    Tag { name: t.name.clone(), rank: t.rank }
}

fn push_bold(s: &mut String, t: &str)
    ensures
        final(s)@ == old(s)@ + bold(t@),
{
    push_str(s, "**");
    push_str(s, t);
    push_str(s, "**");
    assert(final(s)@ =~= old(s)@ + bold(t@));
}

fn message_with_bold(before: &str, middle: &str, after: &str) -> (r: String)
    ensures
        r@ == before@ + bold(middle@) + after@,
{
    let mut s = String::from_str(before);
    push_bold(&mut s, middle);
    push_str(&mut s, after);
    assert(s@ =~= before@ + bold(middle@) + after@);
    s
}

fn message_with_two_bold(before: &str, first: &str, between: &str, second: &str, after: &str) -> (r: String)
    ensures
        r@ == before@ + bold(first@) + between@ + bold(second@) + after@,
{
    let mut s = String::from_str(before);
    push_bold(&mut s, first);
    push_str(&mut s, between);
    push_bold(&mut s, second);
    push_str(&mut s, after);
    assert(s@ =~= before@ + bold(first@) + between@ + bold(second@) + after@);
    s
}

fn year_message(x: u64) -> (r: String)
    ensures
        r@ == "This anime started airing in the year "@ + bold(decimal(x as nat)),
{
    let mut s = String::from_str("This anime started airing in the year ");
    push_str(&mut s, "**");
    push_decimal(&mut s, x);
    push_str(&mut s, "**");
    assert(s@ =~= "This anime started airing in the year "@ + bold(decimal(x as nat)));
    s
}

/// Reveals one hint: the message that describes it and what is left of it.
/// For a hint with a list, `pick` chooses the element revealed.
pub fn render_hint(chosen: Hint, pick: usize) -> (r: (String, Option<Hint>))
    requires
        pick_ok(chosen@, pick as int),
    ensures
        r.0@ == hint_text(chosen@, pick as int),
        r.1 is None <==> hint_rest(chosen@, pick as int) is None,
        r.1 is Some ==> r.1->0@ == hint_rest(chosen@, pick as int)->0,
{
    proof {
        reveal_strlit("");
    }
    match chosen {
        Hint::SeasonYear(x) => {
            (year_message(x), None)
        },
        Hint::UserScore(x) => {
            let w = rank_weight(x);
            (message_with_bold("You gave this anime a ", w.as_str(), " score"), None)
        },
        Hint::AverageScore(x) => {
            let w = rank_weight(x);
            (message_with_bold("On AL this anime has a ", w.as_str(), " average score"), None)
        },
        Hint::Format(s) => {
            (message_with_bold("The format of this anime is: ", s.as_str(), ""), None)
        },
        Hint::Season(s) => {
            (message_with_bold("This anime aired in the ", s.as_str(), " season"), None)
        },
        Hint::Source(s) => {
            (message_with_bold("The source of this anime is: ", s.as_str(), ""), None)
        },
        Hint::Genres(vs) => {
            let mut vs = vs;
            if vs.len() == 0 {
                (String::from_str("weh"), None)
            } else {
                let ghost before = vs@;
                let g = take_element_at(&mut vs, pick);
                let msg = message_with_bold("", g.as_str(), " is one of this anime's genres");
                assert(strings_view(vs@) =~= strings_view(before).remove(pick as int));
                if vs.len() > 0 {
                    (msg, Some(Hint::Genres(vs)))
                } else {
                    (msg, None)
                }
            }
        },
        Hint::Tag(vt) => {
            let mut vt = vt;
            if vt.len() == 0 {
                (String::from_str("weh"), None)
            } else {
                let ghost before = vt@;
                let t = take_element_at(&mut vt, pick);
                let w = rank_weight(t.rank);
                let msg = message_with_two_bold("", t.name.as_str(), " is one of this anime's tags and it has a ", w.as_str(), " rating");
                assert(tags_view(vt@) =~= tags_view(before).remove(pick as int));
                if vt.len() > 0 {
                    (msg, Some(Hint::Tag(vt)))
                } else {
                    (msg, None)
                }
            }
        },
        Hint::Studios(vs) => {
            if vs.len() == 0 {
                (String::from_str("weh"), None)
            } else {
                (message_with_bold("This anime was made by ", vs[pick].as_str(), ""), None)
            }
        },
        Hint::VoiceActors(vs) => {
            if vs.len() == 0 {
                (String::from_str("weh"), None)
            } else {
                (message_with_bold("", vs[pick].as_str(), " voiced a main character in this show"), None)
            }
        },
        Hint::Staff(vs) => {
            if vs.len() == 0 {
                (String::from_str("weh"), None)
            } else {
                (message_with_two_bold("", vs[pick].name.as_str(), " worked on this anime with the role of: ", vs[pick].role.as_str(), ""), None)
            }
        },
    }
}

/// The number of elements that a hint with a list can reveal (0 for other hints).
pub open spec fn pick_range(h: HintView) -> nat {
    match h {
        HintView::Genres(v) => v.len(),
        HintView::Studios(v) => v.len(),
        HintView::VoiceActors(v) => v.len(),
        HintView::Tag(v) => v.len(),
        HintView::Staff(v) => v.len(),
        _ => 0,
    }
}

fn list_len(h: &Hint) -> (n: usize)
    ensures
        n == pick_range(h@),
{
    match h {
        Hint::Genres(v) => v.len(),
        Hint::Studios(v) => v.len(),
        Hint::VoiceActors(v) => v.len(),
        Hint::Tag(v) => v.len(),
        Hint::Staff(v) => v.len(),
        _ => 0,
    }
}

/// Picks at random which element of a hint's list gets revealed: an index
/// drawn from the list's positions, or 0 for a hint without a list or with an
/// empty one.
fn random_pick(h: &Hint) -> (p: usize)
    ensures
        pick_ok(h@, p as int),
        pick_range(h@) == 0 ==> p == 0,
        pick_range(h@) > 0 ==> p < pick_range(h@),
{
    let n = list_len(h);
    if n == 0 {
        0
    } else {
        random_index(n)
    }
}

/// One reveal of the guessing game: hint `h` (picked with `pick`) is taken
/// from `before`, gives message `text`, and `after` is what remains.
pub open spec fn hint_step(before: Seq<HintView>, text: Seq<char>, after: Seq<HintView>) -> bool {
    if before.len() == 0 {
        text == no_hints_text() && after == before
    } else {
        exists|i: int, j: int|
            0 <= i < before.len() && #[trigger] pick_ok(before[i], j)
            && text == hint_text(before[i], j)
            && after == before.remove(i) + rest_seq(hint_rest(before[i], j))
    }
}

/// Reveals a randomly chosen hint of `remaining_hints` and returns its message.
/// The revealed hint leaves the list; genres and tags go back with their other
/// elements while any are left.
pub fn process_hint(remaining_hints: &mut Vec<Hint>) -> (r: String)
    ensures
        hint_step(hints_view(old(remaining_hints)@), r@, hints_view(final(remaining_hints)@)),
{
    let ghost before = remaining_hints@;
    let potential_hint = get_random_element_from_vec(remaining_hints);
    match potential_hint {
        None => {
            assert(hints_view(final(remaining_hints)@) =~= hints_view(before));
            String::from_str("No hints are left!")
        },
        Some(chosen) => {
            let ghost i = choose|i: int|
                0 <= i < before.len() && Some(chosen) == Some(before[i]) && remaining_hints@ == before.remove(i);
            let pick = random_pick(&chosen);
            let ghost chosen_view = chosen@;
            let (text, rest) = render_hint(chosen, pick);
            let ghost mid = remaining_hints@;
            match rest {
                Some(h) => remaining_hints.push(h),
                None => {},
            }
            proof {
                let bv = hints_view(before);
                assert(bv[i] == chosen_view);
                assert(hints_view(mid) =~= bv.remove(i));
                assert(hints_view(remaining_hints@) =~= bv.remove(i) + rest_seq(hint_rest(bv[i], pick as int)));
                assert(pick_ok(bv[i], pick as int));
            }
            text
        },
    }
}


/// The titles of an anime on a completed list.
pub struct GuessTitle {
    pub romaji: Option<String>,
    pub english: Option<String>,
}

/// What the guessing game reads of an anime of the player's list.
pub struct GuessMedia {
    pub id: u64,
    pub season: Option<String>,
    pub season_year: Option<u64>,
    pub format: Option<String>,
    pub genres: Vec<String>,
    pub tags: Vec<Tag>,
    pub average_score: Option<u64>,
    pub source: Option<String>,
    pub title: GuessTitle,
}

/// One entry of the player's completed list: the score (0..=100) and the anime.
pub struct GuessEntry {
    pub score: u64,
    pub media: GuessMedia,
}

/// The name held by an optional string, as a list of zero or one names.
pub open spec fn opt_names(o: Option<String>) -> Seq<Seq<char>> {
    match o {
        Some(s) => seq![s@],
        None => Seq::empty(),
    }
}

/// The romaji title, then the English title, where they exist.
pub open spec fn title_names(t: GuessTitle) -> Seq<Seq<char>> {
    opt_names(t.romaji) + opt_names(t.english)
}

/// The titles of all entries, in order.
pub open spec fn all_titles(es: Seq<GuessEntry>) -> Seq<Seq<char>>
    decreases es.len(),
{
    if es.len() == 0 {
        Seq::empty()
    } else {
        all_titles(es.drop_last()) + title_names(es.last().media.title)
    }
}

/// `s` with every run of equal adjacent elements cut to one (as `Vec::dedup`).
pub open spec fn dedup_adjacent<A>(s: Seq<A>) -> Seq<A>
    decreases s.len(),
{
    if s.len() <= 1 {
        s
    } else if s.last() == s[s.len() - 2] {
        dedup_adjacent(s.drop_last())
    } else {
        dedup_adjacent(s.drop_last()).push(s.last())
    }
}

proof fn lemma_dedup_last<A>(s: Seq<A>)
    requires
        s.len() > 0,
    ensures
        dedup_adjacent(s).len() > 0,
        dedup_adjacent(s).last() == s.last(),
    decreases s.len(),
{
    if s.len() > 1 {
        lemma_dedup_last(s.drop_last());
    }
}

proof fn lemma_dedup_prefix_ok<A>(s: Seq<A>)
    ensures
        forall|i: int| 0 <= i < dedup_adjacent(s).len() - 1 ==> #[trigger] dedup_adjacent(s)[i] != dedup_adjacent(s)[i + 1],
    decreases s.len(),
{
    if s.len() > 1 {
        let t = s.drop_last();
        lemma_dedup_prefix_ok(t);
        lemma_dedup_last(t);
        if s.last() != s[s.len() - 2] {
            let d = dedup_adjacent(t);
            assert(t.last() == s[s.len() - 2]);
            assert forall|i: int| 0 <= i < d.push(s.last()).len() - 1 implies #[trigger] d.push(s.last())[i] != d.push(s.last())[i + 1] by {
                if i == d.len() - 1 {
                    assert(d.push(s.last())[i] == d.last());
                }
            }
        }
    }
}

/// Law: the names a guess is completed from never hold the same name twice in a row.
pub proof fn lemma_all_names_no_adjacent_repeats(entries: Seq<GuessEntry>)
    ensures
        forall|i: int| 0 <= i < dedup_adjacent(all_titles(entries)).len() - 1 ==>
            #[trigger] dedup_adjacent(all_titles(entries))[i] != dedup_adjacent(all_titles(entries))[i + 1],
{
    lemma_dedup_prefix_ok(all_titles(entries));
}

fn push_opt_name(names: &mut Vec<String>, o: &Option<String>)
    ensures
        strings_view(final(names)@) == strings_view(old(names)@) + opt_names(*o),
{
    match o {
        Some(x) => {
            names.push(x.clone());
            assert(strings_view(names@) =~= strings_view(old(names)@) + opt_names(*o));
        },
        None => {
            assert(strings_view(names@) =~= strings_view(old(names)@) + opt_names(*o));
        },
    }
}

/// Removes the repeats of adjacent equal names.
fn dedup_names(v: Vec<String>) -> (r: Vec<String>)
    ensures
        strings_view(r@) == dedup_adjacent(strings_view(v@)),
{
    let ghost s = strings_view(v@);
    let mut out: Vec<String> = Vec::new();
    let mut i: usize = 0;
    while i < v.len()
        invariant
            i <= v@.len(),
            s == strings_view(v@),
            strings_view(out@) == dedup_adjacent(s.take(i as int)),
            i > 0 ==> out@.len() > 0 && out@.last()@ == s[i - 1],
        decreases v@.len() - i,
    {
        let ghost t = s.take(i + 1);
        assert(t.drop_last() =~= s.take(i as int));
        proof {
            lemma_dedup_last(t);
        }
        if i == 0 || out[out.len() - 1] != v[i] {
            out.push(v[i].clone());
            assert(strings_view(out@) =~= dedup_adjacent(t));
        } else {
            assert(strings_view(out@) =~= dedup_adjacent(t));
        }
        i = i + 1;
    }
    assert(s.take(v@.len() as int) =~= s);
    out
}

/// All the titles of the entries, with adjacent repeats removed: the names a
/// guess can be completed from.
pub fn get_all_names(v: &Vec<GuessEntry>) -> (r: Vec<String>)
    ensures
        strings_view(r@) == dedup_adjacent(all_titles(v@)),
{
    let mut names: Vec<String> = Vec::new();
    let mut i: usize = 0;
    while i < v.len()
        invariant
            i <= v@.len(),
            strings_view(names@) == all_titles(v@.take(i as int)),
        decreases v@.len() - i,
    {
        push_opt_name(&mut names, &v[i].media.title.romaji);
        push_opt_name(&mut names, &v[i].media.title.english);
        assert(v@.take(i + 1).drop_last() =~= v@.take(i as int));
        i = i + 1;
    }
    assert(v@.take(v@.len() as int) =~= v@);
    dedup_names(names)
}

/// The hint a present value gives, as a list of zero or one hints.
pub open spec fn opt_hint<A>(o: Option<A>, f: spec_fn(A) -> HintView) -> Seq<HintView> {
    match o {
        Some(x) => seq![f(x)],
        None => Seq::empty(),
    }
}

/// The hints an entry gives, in order: year, the player's score, genres, tags,
/// season, format, average score and source, each where it is known.
pub open spec fn generated_hints(e: GuessEntry) -> Seq<HintView> {
    leading_hints(e) + trailing_hints(e.media)
}

/// Year, the player's score, genres and tags.
pub open spec fn leading_hints(e: GuessEntry) -> Seq<HintView> {
    let m = e.media;
    opt_hint(m.season_year, |y: u64| HintView::SeasonYear(y))
        + seq![HintView::UserScore(e.score)]
        + (if m.genres@.len() > 0 { seq![HintView::Genres(strings_view(m.genres@))] } else { Seq::empty() })
        + (if m.tags@.len() > 0 { seq![HintView::Tag(tags_view(m.tags@))] } else { Seq::empty() })
}

/// Season, format, average score and source.
pub open spec fn trailing_hints(m: GuessMedia) -> Seq<HintView> {
    opt_hint(m.season, |s: String| HintView::Season(s@))
        + opt_hint(m.format, |s: String| HintView::Format(s@))
        + opt_hint(m.average_score, |x: u64| HintView::AverageScore(x))
        + opt_hint(m.source, |s: String| HintView::Source(s@))
}

fn push_hint(v: &mut Vec<Hint>, h: Hint)
    ensures
        hints_view(final(v)@) == hints_view(old(v)@).push(h@),
{
    let ghost hv = h@;
    v.push(h);
    assert(hints_view(v@) =~= hints_view(old(v)@).push(hv));
}

/// Copies a list of strings.
fn clone_strings(v: &Vec<String>) -> (r: Vec<String>)
    ensures
        r@ == v@,
{
    let mut r: Vec<String> = Vec::new();
    let mut i: usize = 0;
    while i < v.len()
        invariant
            i <= v@.len(),
            r@ == v@.take(i as int),
        decreases v@.len() - i,
    {
        r.push(v[i].clone());
        assert(v@.take(i + 1) =~= v@.take(i as int).push(v@[i as int]));
        i = i + 1;
    }
    assert(v@.take(v@.len() as int) =~= v@);
    r
}

/// Copies a list of tags.
fn clone_tags(v: &Vec<Tag>) -> (r: Vec<Tag>)
    ensures
        tags_view(r@) == tags_view(v@),
{
    let mut r: Vec<Tag> = Vec::new();
    let mut i: usize = 0;
    while i < v.len()
        invariant
            i <= v@.len(),
            r@.len() == i,
            forall|k: int| 0 <= k < i ==> (#[trigger] r@[k])@ == v@[k]@,
        decreases v@.len() - i,
    {
        r.push(clone_tag(&v[i]));
        i = i + 1;
    }
    assert(tags_view(r@) =~= tags_view(v@));
    r
}

fn push_leading_hints(hints: &mut Vec<Hint>, e: &GuessEntry)
    ensures
        hints_view(final(hints)@) == hints_view(old(hints)@) + leading_hints(*e),
{
    let m = &e.media;
    match m.season_year {
        Some(y) => push_hint(hints, Hint::SeasonYear(y)),
        None => {},
    }
    let ghost a = hints_view(hints@);
    assert(a =~= hints_view(old(hints)@) + opt_hint(m.season_year, |y: u64| HintView::SeasonYear(y)));
    push_hint(hints, Hint::UserScore(e.score));
    let ghost b = hints_view(hints@);
    if m.genres.len() > 0 {
        let g = clone_strings(&m.genres);
        push_hint(hints, Hint::Genres(g));
    }
    let ghost c = hints_view(hints@);
    assert(c =~= b + (if m.genres@.len() > 0 { seq![HintView::Genres(strings_view(m.genres@))] } else { Seq::<HintView>::empty() }));
    if m.tags.len() > 0 {
        let t = clone_tags(&m.tags);
        push_hint(hints, Hint::Tag(t));
    }
    assert(hints_view(hints@) =~= c + (if m.tags@.len() > 0 { seq![HintView::Tag(tags_view(m.tags@))] } else { Seq::<HintView>::empty() }));
    assert(hints_view(hints@) =~= hints_view(old(hints)@) + leading_hints(*e));
}

fn push_opt_season(hints: &mut Vec<Hint>, o: &Option<String>)
    ensures
        hints_view(final(hints)@) == hints_view(old(hints)@) + opt_hint(*o, |s: String| HintView::Season(s@)),
{
    match o {
        Some(s) => push_hint(hints, Hint::Season(s.clone())),
        None => {},
    }
    assert(hints_view(hints@) =~= hints_view(old(hints)@) + opt_hint(*o, |s: String| HintView::Season(s@)));
}

fn push_opt_format(hints: &mut Vec<Hint>, o: &Option<String>)
    ensures
        hints_view(final(hints)@) == hints_view(old(hints)@) + opt_hint(*o, |s: String| HintView::Format(s@)),
{
    match o {
        Some(s) => push_hint(hints, Hint::Format(s.clone())),
        None => {},
    }
    assert(hints_view(hints@) =~= hints_view(old(hints)@) + opt_hint(*o, |s: String| HintView::Format(s@)));
}

fn push_trailing_hints(hints: &mut Vec<Hint>, m: &GuessMedia)
    ensures
        hints_view(final(hints)@) == hints_view(old(hints)@) + trailing_hints(*m),
{
    push_opt_season(hints, &m.season);
    push_opt_format(hints, &m.format);
    let ghost before_avg = hints_view(hints@);
    match m.average_score {
        Some(x) => push_hint(hints, Hint::AverageScore(x)),
        None => {},
    }
    let ghost c = opt_hint(m.average_score, |x: u64| HintView::AverageScore(x));
    assert(hints_view(hints@) =~= before_avg + c);
    let ghost before_src = hints_view(hints@);
    match &m.source {
        Some(s) => push_hint(hints, Hint::Source(s.clone())),
        None => {},
    }
    let ghost d = opt_hint(m.source, |s: String| HintView::Source(s@));
    assert(hints_view(hints@) =~= before_src + d);
    assert(hints_view(hints@) =~= hints_view(old(hints)@) + trailing_hints(*m));
}

/// The round of the guessing game for one entry: the anime, the titles that
/// count as right (romaji, then English) and the hints it gives.
pub fn generate_hint(entry_info: &GuessEntry) -> (r: AnimeGuess)
    ensures
        r.id == entry_info.media.id,
        strings_view(r.synonyms@) == title_names(entry_info.media.title),
        hints_view(r.hints@) == generated_hints(*entry_info),
{
    let mut hints: Vec<Hint> = Vec::new();
    push_leading_hints(&mut hints, entry_info);
    push_trailing_hints(&mut hints, &entry_info.media);
    assert(hints_view(hints@) =~= generated_hints(*entry_info));
    let mut titles: Vec<String> = Vec::new();
    push_opt_name(&mut titles, &entry_info.media.title.romaji);
    push_opt_name(&mut titles, &entry_info.media.title.english);
    assert(strings_view(titles@) =~= title_names(entry_info.media.title));
    AnimeGuess { id: entry_info.media.id, synonyms: titles, hints }
}

/// Whether hint `h` tells what entry `e` says for the hint's kind: its year,
/// the player's score, all its genres, all its tags, its season, format,
/// average score or source.
pub open spec fn hint_from_entry(h: HintView, e: GuessEntry) -> bool {
    match h {
        HintView::SeasonYear(y) => e.media.season_year == Some(y),
        HintView::UserScore(x) => x == e.score,
        HintView::Genres(g) => e.media.genres@.len() > 0 && g == strings_view(e.media.genres@),
        HintView::Tag(t) => e.media.tags@.len() > 0 && t == tags_view(e.media.tags@),
        HintView::Season(x) => e.media.season matches Some(v) && v@ == x,
        HintView::Format(x) => e.media.format matches Some(v) && v@ == x,
        HintView::AverageScore(x) => e.media.average_score == Some(x),
        HintView::Source(x) => e.media.source matches Some(v) && v@ == x,
        _ => false,
    }
}

/// Every hint of `s` tells what entry `e` says.
pub open spec fn all_from_entry(s: Seq<HintView>, e: GuessEntry) -> bool {
    forall|i: int| 0 <= i < s.len() ==> hint_from_entry(#[trigger] s[i], e)
}

proof fn lemma_all_from_entry_concat(a: Seq<HintView>, b: Seq<HintView>, e: GuessEntry)
    requires
        all_from_entry(a, e),
        all_from_entry(b, e),
    ensures
        all_from_entry(a + b, e),
        forall|h: HintView| a.contains(h) || b.contains(h) ==> (a + b).contains(h),
{
    assert forall|i: int| 0 <= i < (a + b).len() implies hint_from_entry(#[trigger] (a + b)[i], e) by {
        if i < a.len() {
            assert((a + b)[i] == a[i]);
        } else {
            assert((a + b)[i] == b[i - a.len()]);
        }
    }
    assert forall|h: HintView| a.contains(h) || b.contains(h) implies (a + b).contains(h) by {
        if a.contains(h) {
            let k = choose|k: int| 0 <= k < a.len() && a[k] == h;
            assert((a + b)[k] == h);
        } else {
            let k = choose|k: int| 0 <= k < b.len() && b[k] == h;
            assert((a + b)[k + a.len()] == h);
        }
    }
}

/// Law: the hints of a round tell exactly what the chosen entry says, each
/// kind in full (all the genres, all the tags), and every known fact of the
/// entry gives its hint: the player's score always, the year, genres, tags,
/// season, format, average score and source whenever the entry has them.
pub proof fn lemma_generated_hints_from_entry(e: GuessEntry)
    ensures
        all_from_entry(generated_hints(e), e),
        generated_hints(e).contains(HintView::UserScore(e.score)),
        e.media.season_year matches Some(y) ==> generated_hints(e).contains(HintView::SeasonYear(y)),
        e.media.genres@.len() > 0 ==> generated_hints(e).contains(HintView::Genres(strings_view(e.media.genres@))),
        e.media.tags@.len() > 0 ==> generated_hints(e).contains(HintView::Tag(tags_view(e.media.tags@))),
        e.media.season matches Some(v) ==> generated_hints(e).contains(HintView::Season(v@)),
        e.media.format matches Some(v) ==> generated_hints(e).contains(HintView::Format(v@)),
        e.media.average_score matches Some(x) ==> generated_hints(e).contains(HintView::AverageScore(x)),
        e.media.source matches Some(v) ==> generated_hints(e).contains(HintView::Source(v@)),
{
    let m = e.media;
    let l1 = opt_hint(m.season_year, |y: u64| HintView::SeasonYear(y));
    let l2 = seq![HintView::UserScore(e.score)];
    let l3 = if m.genres@.len() > 0 { seq![HintView::Genres(strings_view(m.genres@))] } else { Seq::<HintView>::empty() };
    let l4 = if m.tags@.len() > 0 { seq![HintView::Tag(tags_view(m.tags@))] } else { Seq::<HintView>::empty() };
    let t1 = opt_hint(m.season, |v: String| HintView::Season(v@));
    let t2 = opt_hint(m.format, |v: String| HintView::Format(v@));
    let t3 = opt_hint(m.average_score, |x: u64| HintView::AverageScore(x));
    let t4 = opt_hint(m.source, |v: String| HintView::Source(v@));
    assert(leading_hints(e) == l1 + l2 + l3 + l4);
    assert(trailing_hints(m) == t1 + t2 + t3 + t4);
    assert(all_from_entry(l1, e));
    assert(all_from_entry(l2, e));
    assert(all_from_entry(l3, e));
    assert(all_from_entry(l4, e));
    assert(all_from_entry(t1, e));
    assert(all_from_entry(t2, e));
    assert(all_from_entry(t3, e));
    assert(all_from_entry(t4, e));
    assert(l2[0] == HintView::UserScore(e.score));
    assert(l2.contains(HintView::UserScore(e.score)));
    if let Some(y) = m.season_year {
        assert(l1[0] == HintView::SeasonYear(y));
        assert(l1.contains(HintView::SeasonYear(y)));
    }
    if m.genres@.len() > 0 {
        assert(l3[0] == HintView::Genres(strings_view(m.genres@)));
        assert(l3.contains(HintView::Genres(strings_view(m.genres@))));
    }
    if m.tags@.len() > 0 {
        assert(l4[0] == HintView::Tag(tags_view(m.tags@)));
        assert(l4.contains(HintView::Tag(tags_view(m.tags@))));
    }
    if let Some(v) = m.season {
        assert(t1[0] == HintView::Season(v@));
        assert(t1.contains(HintView::Season(v@)));
    }
    if let Some(v) = m.format {
        assert(t2[0] == HintView::Format(v@));
        assert(t2.contains(HintView::Format(v@)));
    }
    if let Some(x) = m.average_score {
        assert(t3[0] == HintView::AverageScore(x));
        assert(t3.contains(HintView::AverageScore(x)));
    }
    if let Some(v) = m.source {
        assert(t4[0] == HintView::Source(v@));
        assert(t4.contains(HintView::Source(v@)));
    }
    lemma_all_from_entry_concat(l1, l2, e);
    lemma_all_from_entry_concat(l1 + l2, l3, e);
    lemma_all_from_entry_concat(l1 + l2 + l3, l4, e);
    lemma_all_from_entry_concat(t1, t2, e);
    lemma_all_from_entry_concat(t1 + t2, t3, e);
    lemma_all_from_entry_concat(t1 + t2 + t3, t4, e);
    lemma_all_from_entry_concat(leading_hints(e), trailing_hints(m), e);
    assert((l1 + l2).contains(HintView::UserScore(e.score)));
    assert((l1 + l2 + l3).contains(HintView::UserScore(e.score)));
    assert(leading_hints(e).contains(HintView::UserScore(e.score)));
    if m.tags@.len() > 0 {
        assert(leading_hints(e).contains(HintView::Tag(tags_view(m.tags@))));
    }
}

/// The Unicode lower case of a string, as std's `str::to_lowercase` gives it.
pub uninterp spec fn lowercase(s: Seq<char>) -> Seq<char>;

/// Lower-cases a string with std's `str::to_lowercase`. The contract names the
/// result: it depends on the string alone (Unicode's fixed case tables).
#[verifier::external_body]
fn to_lowercase(s: &str) -> (r: String)
    ensures
        r@ == lowercase(s@),
{
    s.to_lowercase()
}

/// The Damerau-Levenshtein distance of two strings, as `strsim::damerau_levenshtein` computes it.
pub uninterp spec fn damerau_levenshtein_distance(a: Seq<char>, b: Seq<char>) -> nat;

/// Calls `strsim::damerau_levenshtein`, the edit distance that counts insertions,
/// deletions, substitutions and transpositions of characters. The contract names
/// the result as a function of the two strings, and states that two equal
/// strings are at distance 0, as of any edit distance.
#[verifier::external_body]
fn damerau_levenshtein(a: &str, b: &str) -> (d: usize)
    ensures
        d == damerau_levenshtein_distance(a@, b@),
        a@ == b@ ==> d == 0,
{
    strsim::damerau_levenshtein(a, b)
}

/// How far a guess is from a title: the edit distance of their lower-case forms.
pub open spec fn guess_distance(title: Seq<char>, guess: Seq<char>) -> nat {
    damerau_levenshtein_distance(lowercase(title), lowercase(guess))
}

/// The largest distance from a title at which a guess still counts as right.
pub open spec fn guess_tolerance() -> nat {
    3
}

/// Whether any of the distances is small enough for a guess to count.
pub fn any_within_guess_distance(distances: &Vec<usize>) -> (r: bool)
    ensures
        r == exists|i: int| 0 <= i < distances@.len() && #[trigger] distances@[i] <= guess_tolerance(),
{
    let mut i: usize = 0;
    while i < distances.len()
        invariant
            i <= distances@.len(),
            forall|k: int| 0 <= k < i ==> #[trigger] distances@[k] > guess_tolerance(),
        decreases distances@.len() - i,
    {
        if distances[i] <= 3 {
            return true;
        }
        i = i + 1;
    }
    false
}

/// Whether a guess names the anime: it is within distance 3 of one of its
/// titles, upper and lower case alike. A guess that is one of the titles is right.
pub fn process_guess(guess: &str, titles: &Vec<String>) -> (r: bool)
    ensures
        r == exists|i: int| 0 <= i < titles@.len() && guess_distance(#[trigger] titles@[i]@, guess@) <= guess_tolerance(),
        (exists|i: int| 0 <= i < titles@.len() && #[trigger] titles@[i]@ == guess@) ==> r,
{
    let lowered_guess = to_lowercase(guess);
    let mut distances: Vec<usize> = Vec::new();
    let mut i: usize = 0;
    while i < titles.len()
        invariant
            i <= titles@.len(),
            lowered_guess@ == lowercase(guess@),
            distances@.len() == i,
            forall|k: int| 0 <= k < i ==> #[trigger] distances@[k] == guess_distance(titles@[k]@, guess@),
            forall|k: int| 0 <= k < i && titles@[k]@ == guess@ ==> #[trigger] distances@[k] == 0,
        decreases titles@.len() - i,
    {
        let lowered_title = to_lowercase(titles[i].as_str());
        distances.push(damerau_levenshtein(lowered_title.as_str(), lowered_guess.as_str()));
        i = i + 1;
    }
    proof {
        if exists|k: int| 0 <= k < titles@.len() && #[trigger] titles@[k]@ == guess@ {
            let k = choose|k: int| 0 <= k < titles@.len() && #[trigger] titles@[k]@ == guess@;
            assert(distances@[k] == 0);
            assert(distances@[k] <= guess_tolerance());
        }
    }
    let r = any_within_guess_distance(&distances);
    proof {
        if r {
            let k = choose|k: int| 0 <= k < distances@.len() && #[trigger] distances@[k] <= guess_tolerance();
            assert(guess_distance(titles@[k]@, guess@) <= guess_tolerance());
        } else {
            assert forall|k: int| 0 <= k < titles@.len() implies !(guess_distance(#[trigger] titles@[k]@, guess@) <= guess_tolerance()) by {
                assert(!(distances@[k] <= guess_tolerance()));
            }
        }
    }
    r
}

/// A list hint where the list is not empty, as a list of zero or one hints.
pub open spec fn list_hint<A>(v: Seq<A>, h: HintView) -> Seq<HintView> {
    if v.len() > 0 { seq![h] } else { Seq::empty() }
}

/// Adds the hints that need queries of their own: studios, voice actors and
/// staff, each where the query found any.
pub fn add_anime_info(hints: &mut Vec<Hint>, studios: Vec<String>, voice_actors: Vec<String>, staff: Vec<Staff>)
    ensures
        hints_view(final(hints)@) == hints_view(old(hints)@)
            + list_hint(studios@, HintView::Studios(strings_view(studios@)))
            + list_hint(voice_actors@, HintView::VoiceActors(strings_view(voice_actors@)))
            + list_hint(staff@, HintView::Staff(staff_view(staff@))),
{
    let ghost a = list_hint(studios@, HintView::Studios(strings_view(studios@)));
    let ghost b = list_hint(voice_actors@, HintView::VoiceActors(strings_view(voice_actors@)));
    let ghost c = list_hint(staff@, HintView::Staff(staff_view(staff@)));
    if studios.len() > 0 {
        push_hint(hints, Hint::Studios(studios));
    }
    let ghost h1 = hints_view(hints@);
    assert(h1 =~= hints_view(old(hints)@) + a);
    if voice_actors.len() > 0 {
        push_hint(hints, Hint::VoiceActors(voice_actors));
    }
    let ghost h2 = hints_view(hints@);
    assert(h2 =~= h1 + b);
    if staff.len() > 0 {
        push_hint(hints, Hint::Staff(staff));
    }
    assert(hints_view(hints@) =~= h2 + c);
    assert(hints_view(hints@) =~= hints_view(old(hints)@) + a + b + c);
}

/// The round for the entry at `chosen`, and the names a guess can be completed from.
pub fn anime_guessing_setup_at(entries: &Vec<GuessEntry>, chosen: usize) -> (r: (AnimeGuess, Vec<String>))
    requires
        chosen < entries@.len(),
    ensures
        r.0.id == entries@[chosen as int].media.id,
        strings_view(r.0.synonyms@) == title_names(entries@[chosen as int].media.title),
        hints_view(r.0.hints@) == generated_hints(entries@[chosen as int]),
        strings_view(r.1@) == dedup_adjacent(all_titles(entries@)),
{
    let names = get_all_names(entries);
    let guess = generate_hint(&entries[chosen]);
    (guess, names)
}

/// Starts a round of the guessing game on a randomly chosen entry of the
/// player's list number `list` (counted from 0), which must exist and hold an
/// entry; also gives the names a guess can be completed from.
pub fn anime_guessing_setup(lists: &Vec<Vec<GuessEntry>>, list: usize) -> (r: (AnimeGuess, Vec<String>))
    requires
        list < lists@.len(),
        lists@[list as int]@.len() > 0,
    ensures
        exists|chosen: int| 0 <= chosen < lists@[list as int]@.len()
            && r.0.id == (#[trigger] lists@[list as int]@[chosen]).media.id
            && strings_view(r.0.synonyms@) == title_names(lists@[list as int]@[chosen].media.title)
            && hints_view(r.0.hints@) == generated_hints(lists@[list as int]@[chosen]),
        strings_view(r.1@) == dedup_adjacent(all_titles(lists@[list as int]@)),
{
    let entries = &lists[list];
    let chosen = os_random_index(entries.len());
    anime_guessing_setup_at(entries, chosen)
}

/// Whether a channel already has a round going: the lookup found an anime.
pub fn game_in_progress(current: Result<u64, ()>) -> (r: bool)
    ensures
        r == (current matches Ok(x) && x != 0),
{
    match current {
        Ok(x) => x != 0,
        Err(_) => false,
    }
}

/// The link to an anime's page on AniList.
pub open spec fn anime_link(id: u64) -> Seq<char> {
    "https://anilist.co/anime/"@ + decimal(id as nat)
}

/// The message when a player gives up: the anime, or that no round was going
/// (nothing was deleted).
pub fn give_up_message(anime_id: u64, deleted_rows: usize) -> (r: String)
    ensures
        deleted_rows == 0 ==> r@ == "No game to give up!"@,
        deleted_rows != 0 ==> r@ == "You've given up, the anime was: "@ + anime_link(anime_id),
{
    if deleted_rows == 0 {
        String::from_str("No game to give up!")
    } else {
        let mut t = String::from_str("You've given up, the anime was: https://anilist.co/anime/");
        push_decimal(&mut t, anime_id);
        proof {
            reveal_strlit("You've given up, the anime was: https://anilist.co/anime/");
            reveal_strlit("You've given up, the anime was: ");
            reveal_strlit("https://anilist.co/anime/");
        }
        assert(t@ =~= "You've given up, the anime was: "@ + anime_link(anime_id));
        t
    }
}

/// The answer to a guess: the anime when it is right, else the wrong guess.
pub fn guess_message(correct: bool, anime_id: u64, anime_guess: &str) -> (r: String)
    ensures
        correct ==> r@ == "You guessed right! <:happy:1210688855011762196> The anime was: "@ + anime_link(anime_id),
        !correct ==> r@ == "Your guess of "@ + anime_guess@ + " is wrong!"@,
{
    if correct {
        let mut t = String::from_str("You guessed right! <:happy:1210688855011762196> The anime was: ");
        push_str(&mut t, "https://anilist.co/anime/");
        push_decimal(&mut t, anime_id);
        assert(t@ =~= "You guessed right! <:happy:1210688855011762196> The anime was: "@ + anime_link(anime_id));
        t
    } else {
        let mut t = String::from_str("Your guess of ");
        push_str(&mut t, anime_guess);
        push_str(&mut t, " is wrong!");
        t
    }
}

/// The message given when no hint of the asked kind is left.
pub open spec fn no_typed_hints_text() -> Seq<char> {
    "No hints of that type are left!"@
}

/// `i` is the first position of a hint of kind `t` in `s`.
pub open spec fn first_of_kind(s: Seq<HintView>, t: Seq<char>, i: int) -> bool {
    &&& 0 <= i < s.len()
    &&& view_kind_name(s[i]) == t
    &&& forall|k: int| 0 <= k < i ==> view_kind_name(#[trigger] s[k]) != t
}

/// One reveal of a hint of kind `t`: the first hint of that kind is revealed
/// (picked with some `j`) and leaves as a random reveal would.
pub open spec fn typed_hint_step(before: Seq<HintView>, t: Seq<char>, text: Seq<char>, after: Seq<HintView>) -> bool {
    if forall|i: int| 0 <= i < before.len() ==> view_kind_name(#[trigger] before[i]) != t {
        text == no_typed_hints_text() && after == before
    } else {
        exists|i: int, j: int|
            first_of_kind(before, t, i) && #[trigger] pick_ok(before[i], j)
            && text == hint_text(before[i], j)
            && after == before.remove(i) + rest_seq(hint_rest(before[i], j))
    }
}

/// One reveal as asked: of a random hint, or of the first hint of the named kind.
pub open spec fn requested_step(before: Seq<HintView>, hint_type: Option<Seq<char>>, text: Seq<char>, after: Seq<HintView>) -> bool {
    match hint_type {
        None => hint_step(before, text, after),
        Some(t) => typed_hint_step(before, t, text, after),
    }
}

/// How many hints a request gives: asking for more than 10 gives one.
pub open spec fn hint_count(n: u64) -> nat {
    if n > 10 { 1 } else { n as nat }
}

/// The characters of an optional string slice.
pub open spec fn opt_str_view(o: Option<&str>) -> Option<Seq<char>> {
    match o {
        Some(t) => Some(t@),
        None => None,
    }
}

/// Reveals the first hint of the kind named `hint_type`.
pub fn process_typed_hint(remaining_hints: &mut Vec<Hint>, hint_type: &str) -> (r: String)
    ensures
        typed_hint_step(hints_view(old(remaining_hints)@), hint_type@, r@, hints_view(final(remaining_hints)@)),
{
    let ghost before = remaining_hints@;
    let ghost bv = hints_view(before);
    let found = get_typed_hint(remaining_hints, hint_type);
    match found {
        None => {
            assert forall|i: int| 0 <= i < bv.len() implies view_kind_name(#[trigger] bv[i]) != hint_type@ by {
                assert(hint_kind_name(before[i]) != hint_type@);
            }
            assert(hints_view(remaining_hints@) =~= bv);
            String::from_str("No hints of that type are left!")
        },
        Some(chosen) => {
            let ghost i = choose|i: int|
                0 <= i < before.len()
                && hint_kind_name(before[i]) == hint_type@
                && (forall|k: int| 0 <= k < i ==> hint_kind_name(#[trigger] before[k]) != hint_type@)
                && Some(chosen) == Some(before[i])
                && remaining_hints@ == before.remove(i);
            let pick = random_pick(&chosen);
            let ghost chosen_view = chosen@;
            let (text, rest) = render_hint(chosen, pick);
            let ghost mid = remaining_hints@;
            match rest {
                Some(h) => remaining_hints.push(h),
                None => {},
            }
            proof {
                assert(bv[i] == chosen_view);
                assert forall|k: int| 0 <= k < i implies view_kind_name(#[trigger] bv[k]) != hint_type@ by {
                    assert(hint_kind_name(before[k]) != hint_type@);
                }
                assert(first_of_kind(bv, hint_type@, i));
                assert(hints_view(mid) =~= bv.remove(i));
                assert(hints_view(remaining_hints@) =~= bv.remove(i) + rest_seq(hint_rest(bv[i], pick as int)));
                assert(pick_ok(bv[i], pick as int));
                assert(!(forall|i: int| 0 <= i < bv.len() ==> view_kind_name(#[trigger] bv[i]) != hint_type@));
            }
            text
        },
    }
}

/// Reveals the hints a player asks for: `number_of_hints` of them (one when more
/// than 10 are asked), each of a random kind or of the kind named by `hint_type`.
/// Reveals past the last hint give the message that none is left.
pub fn process_hints(remaining_hints: &mut Vec<Hint>, hint_type: Option<&str>, number_of_hints: u64) -> (r: Vec<String>)
    ensures
        r@.len() == hint_count(number_of_hints),
        exists|states: Seq<Seq<HintView>>|
            states.len() == r@.len() + 1
            && states[0] == hints_view(old(remaining_hints)@)
            && states[r@.len() as int] == hints_view(final(remaining_hints)@)
            && forall|k: int| 0 <= k < r@.len() ==>
                requested_step(#[trigger] states[k], opt_str_view(hint_type), r@[k]@, states[k + 1]),
{
    let count: u64 = if number_of_hints > 10 { 1 } else { number_of_hints };
    let mut texts: Vec<String> = Vec::new();
    let ghost mut states: Seq<Seq<HintView>> = seq![hints_view(remaining_hints@)];
    let mut n: u64 = 0;
    while n < count
        invariant
            n <= count,
            count == hint_count(number_of_hints),
            texts@.len() == n,
            states.len() == n + 1,
            states[0] == hints_view(old(remaining_hints)@),
            states[n as int] == hints_view(remaining_hints@),
            forall|k: int| 0 <= k < n ==>
                requested_step(#[trigger] states[k], opt_str_view(hint_type), texts@[k]@, states[k + 1]),
        decreases count - n,
    {
        let ghost before = hints_view(remaining_hints@);
        let text = match hint_type {
            Some(t) => process_typed_hint(remaining_hints, t),
            None => process_hint(remaining_hints),
        };
        proof {
            assert(requested_step(before, opt_str_view(hint_type), text@, hints_view(remaining_hints@)));
            states = states.push(hints_view(remaining_hints@));
        }
        texts.push(text);
        n = n + 1;
    }
    texts
}

/// How much a hint can still reveal: itself, and each element of its list.
pub open spec fn hint_weight(h: HintView) -> nat {
    1 + pick_range(h)
}

/// How much the hints can still reveal together.
pub open spec fn hints_weight(s: Seq<HintView>) -> nat
    decreases s.len(),
{
    if s.len() == 0 {
        0
    } else {
        hints_weight(s.drop_last()) + hint_weight(s.last())
    }
}

proof fn lemma_weight_append(a: Seq<HintView>, b: Seq<HintView>)
    ensures
        hints_weight(a + b) == hints_weight(a) + hints_weight(b),
    decreases b.len(),
{
    if b.len() == 0 {
        assert(a + b =~= a);
    } else {
        lemma_weight_append(a, b.drop_last());
        assert((a + b).drop_last() =~= a + b.drop_last());
    }
}

proof fn lemma_weight_remove(s: Seq<HintView>, i: int)
    requires
        0 <= i < s.len(),
    ensures
        hints_weight(s) == hints_weight(s.remove(i)) + hint_weight(s[i]),
{
    assert(s =~= s.take(i) + seq![s[i]] + s.skip(i + 1));
    assert(s.remove(i) =~= s.take(i) + s.skip(i + 1));
    lemma_weight_append(s.take(i) + seq![s[i]], s.skip(i + 1));
    lemma_weight_append(s.take(i), seq![s[i]]);
    lemma_weight_append(s.take(i), s.skip(i + 1));
    assert(seq![s[i]].drop_last() =~= Seq::<HintView>::empty());
    assert(hints_weight(seq![s[i]]) == hints_weight(Seq::<HintView>::empty()) + hint_weight(s[i]));
    assert(s.take(i) + seq![s[i]] + s.skip(i + 1) == s);
}

proof fn lemma_reveal_shrinks(before: Seq<HintView>, i: int, j: int)
    requires
        0 <= i < before.len(),
        pick_ok(before[i], j),
    ensures
        hints_weight(before.remove(i) + rest_seq(hint_rest(before[i], j))) < hints_weight(before),
{
    lemma_weight_remove(before, i);
    let r = rest_seq(hint_rest(before[i], j));
    lemma_weight_append(before.remove(i), r);
    match hint_rest(before[i], j) {
        Some(x) => {
            assert(r.drop_last() =~= Seq::<HintView>::empty());
            assert(hints_weight(r) == hints_weight(Seq::<HintView>::empty()) + hint_weight(x));
            assert(hint_weight(x) < hint_weight(before[i]));
        },
        None => {
            assert(hints_weight(r) == 0);
        },
    }
}

/// Law: every reveal of a hint, random or of a named kind, leaves strictly less
/// to reveal unless nothing was left; so a round runs out of hints.
pub proof fn lemma_requested_step_shrinks(before: Seq<HintView>, hint_type: Option<Seq<char>>, text: Seq<char>, after: Seq<HintView>)
    requires
        requested_step(before, hint_type, text, after),
    ensures
        hints_weight(after) <= hints_weight(before),
        hints_weight(after) == hints_weight(before) ==> after == before,
{
    match hint_type {
        None => {
            if before.len() > 0 {
                let (i, j) = choose|i: int, j: int|
                    0 <= i < before.len() && #[trigger] pick_ok(before[i], j)
                    && text == hint_text(before[i], j)
                    && after == before.remove(i) + rest_seq(hint_rest(before[i], j));
                lemma_reveal_shrinks(before, i, j);
            }
        },
        Some(t) => {
            if !(forall|i: int| 0 <= i < before.len() ==> view_kind_name(#[trigger] before[i]) != t) {
                let (i, j) = choose|i: int, j: int|
                    first_of_kind(before, t, i) && #[trigger] pick_ok(before[i], j)
                    && text == hint_text(before[i], j)
                    && after == before.remove(i) + rest_seq(hint_rest(before[i], j));
                lemma_reveal_shrinks(before, i, j);
            }
        },
    }
}

} // verus!
