use vstd::prelude::*;
use vstd::string::*;

use crate::text::push_char;

verus! {

/// One row of the ranking of an anime: who, the score as it is shown, the
/// watching status as it is shown, and whether it is one of their favourites.
pub struct RankingRow {
    pub user_name: String,
    pub score: String,
    pub status: String,
    pub is_favourite: bool,
}

/// `n` spaces.
pub open spec fn spaces(n: nat) -> Seq<char>
    decreases n,
{
    if n == 0 { Seq::empty() } else { spaces((n - 1) as nat).push(' ') }
}

/// `s` filled with spaces on the right to at least `width` characters (what
/// `{:<width}` does to a string).
pub open spec fn pad_right(s: Seq<char>, width: nat) -> Seq<char> {
    if s.len() >= width { s } else { s + spaces((width - s.len()) as nat) }
}

/// The mark of a favourite.
pub open spec fn favourite_mark(fav: bool) -> Seq<char> {
    if fav { seq!['\u{2b50}'] } else { Seq::empty() }
}

/// One line of the ranking table: name, score, status and mark in columns of
/// 21, 5, 4 and 1 characters.
pub open spec fn ranking_line(name: Seq<char>, score: Seq<char>, status: Seq<char>, mark: Seq<char>) -> Seq<char> {
    pad_right(name, 21) + seq![' '] + pad_right(score, 5) + seq![' '] + pad_right(status, 4) + seq![' ']
        + pad_right(mark, 1) + seq!['\n']
}

/// The rows of the ranking table.
pub open spec fn ranking_rows(rows: Seq<RankingRow>) -> Seq<char>
    decreases rows.len(),
{
    if rows.len() == 0 {
        Seq::empty()
    } else {
        let r = rows.last();
        ranking_rows(rows.drop_last()) + ranking_line(r.user_name@, r.score@, r.status@, favourite_mark(r.is_favourite))
    }
}

/// The ranking of an anime as a code block: a header and one line per row.
pub open spec fn ranking_field(rows: Seq<RankingRow>) -> Seq<char> {
    "```\n"@ + ranking_line("Username"@, "Score"@, "Stat"@, "Fav"@) + ranking_rows(rows) + "```"@
}

fn push_padded(out: &mut String, s: &str, width: usize)
    ensures
        final(out)@ == old(out)@ + pad_right(s@, width as nat),
{
    out.append(s);
    let n = s.unicode_len();
    let mut k = n;
    let ghost base = out@;
    while k < width
        invariant
            n == s@.len(),
            n <= k <= width || (n > width && k == n),
            out@ == base + spaces((k - n) as nat),
            base == old(out)@ + s@,
        decreases width - k,
    {
        push_char(out, ' ');
        assert(spaces((k + 1 - n) as nat) == spaces((k - n) as nat).push(' '));
        k = k + 1;
    }
    assert(spaces(0) =~= Seq::<char>::empty());
    assert(out@ =~= old(out)@ + pad_right(s@, width as nat));
}

fn push_line(out: &mut String, name: &str, score: &str, status: &str, mark: &str)
    ensures
        final(out)@ == old(out)@ + ranking_line(name@, score@, status@, mark@),
{
    push_padded(out, name, 21);
    push_char(out, ' ');
    push_padded(out, score, 5);
    push_char(out, ' ');
    push_padded(out, status, 4);
    push_char(out, ' ');
    push_padded(out, mark, 1);
    push_char(out, '\n');
    assert(out@ =~= old(out)@ + ranking_line(name@, score@, status@, mark@));
}

/// Lays out the ranking of an anime, rows in the order given (the caller sorts).
pub fn create_ranking_field(entries: &Vec<RankingRow>) -> (r: String)
    ensures
        r@ == ranking_field(entries@),
{
    let mut field = String::from_str("```\n");
    push_line(&mut field, "Username", "Score", "Stat", "Fav");
    let ghost head = field@;
    let mut i: usize = 0;
    while i < entries.len()
        invariant
            i <= entries@.len(),
            field@ == head + ranking_rows(entries@.take(i as int)),
        decreases entries@.len() - i,
    {
        let e = &entries[i];
        let mut mark = String::new();
        if e.is_favourite {
            push_char(&mut mark, '\u{2b50}');
        }
        assert(mark@ =~= favourite_mark(e.is_favourite));
        push_line(&mut field, e.user_name.as_str(), e.score.as_str(), e.status.as_str(), mark.as_str());
        assert(entries@.take(i + 1).drop_last() =~= entries@.take(i as int));
        assert(field@ =~= head + ranking_rows(entries@.take(i + 1)));
        i = i + 1;
    }
    assert(entries@.take(entries@.len() as int) =~= entries@);
    field.append("```");
    field
}

} // verus!
