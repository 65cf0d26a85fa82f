use vstd::prelude::*;
use vstd::string::*;

use crate::text::{decimal, push_char};
use crate::team_swapping::team_swap_utils::{
    Reply, ReplyView, answer_phase, current_phase, digits_value, is_digit, lemma_decimal_digits,
    named_private_reply, phase_answer, private_reply,
};

verus! {

/// The text every link to an anime on AniList starts with.
pub open spec fn anilist_prefix() -> Seq<char> {
    "https://anilist.co/anime/"@
}

/// Whether `c` may stand in the name part of an AniList link: an ASCII letter,
/// digit or `-`.
pub open spec fn is_slug_char(c: char) -> bool {
    ('a' <= c && c <= 'z') || ('A' <= c && c <= 'Z') || ('0' <= c && c <= '9') || c == '-'
}

/// The position of the first `/` in `s` (its length when there is none).
pub open spec fn first_slash(s: Seq<char>) -> int
    decreases s.len(),
{
    if s.len() == 0 {
        0
    } else if s[0] == '/' {
        0
    } else {
        1 + first_slash(s.drop_first())
    }
}

/// The two parts of an AniList anime link
/// `https://anilist.co/anime/<digits>/<name>` (with an optional final `/`):
/// the id digits and the name, each non-empty, the digits ASCII and the name
/// made of ASCII letters, digits and `-`. `None` for any other text.
pub open spec fn anilist_link_parts(s: Seq<char>) -> Option<(Seq<char>, Seq<char>)> {
    let p = anilist_prefix();
    if s.len() < p.len() || s.take(p.len() as int) != p {
        None
    } else {
        link_rest_parts(s.skip(p.len() as int))
    }
}

/// `s` with every `-` turned into a space.
pub open spec fn dashes_to_spaces(s: Seq<char>) -> Seq<char> {
    s.map_values(|c: char| if c == '-' { ' ' } else { c })
}

/// What a submitted link holds.
pub enum AnilistLink {
    /// A link to an anime: its id and its name with dashes as spaces.
    Anime { anime_id: u64, title: String },
    /// A link whose id does not fit in 64 bits.
    IdOutOfRange,
    /// Not a link to an anime on AniList.
    Invalid,
}

proof fn lemma_first_slash(s: Seq<char>, k: int)
    requires
        0 <= k <= s.len(),
        forall|i: int| 0 <= i < k ==> s[i] != '/',
        k == s.len() || s[k] == '/',
    ensures
        first_slash(s) == k,
    decreases k,
{
    if k > 0 {
        lemma_first_slash(s.drop_first(), k - 1);
    }
}

fn slug_char(c: char) -> (b: bool)
    ensures
        b == is_slug_char(c),
{
    ('a' <= c && c <= 'z') || ('A' <= c && c <= 'Z') || ('0' <= c && c <= '9') || c == '-'
}

/// A non-empty run of ASCII digits.
pub open spec fn all_digits(d: Seq<char>) -> bool {
    d.len() > 0 && forall|i: int| 0 <= i < d.len() ==> is_digit(#[trigger] d[i])
}

/// A non-empty run of ASCII letters, digits and `-`.
pub open spec fn all_slug_chars(n: Seq<char>) -> bool {
    n.len() > 0 && forall|i: int| 0 <= i < n.len() ==> is_slug_char(#[trigger] n[i])
}

/// The parts of a link, seen from where its id starts: the id digits end at
/// the first `/`, and the name follows it, without a final `/`.
pub open spec fn link_rest_parts(r: Seq<char>) -> Option<(Seq<char>, Seq<char>)> {
    let k = first_slash(r);
    let digits = r.take(k);
    if k >= r.len() {
        None
    } else {
        let tail = r.skip(k + 1);
        let name = if tail.len() > 0 && tail.last() == '/' { tail.drop_last() } else { tail };
        if all_digits(digits) && all_slug_chars(name) {
            Some((digits, name))
        } else {
            None
        }
    }
}

fn read_digits(link: &str, from: usize, to: usize) -> (r: Option<u128>)
    requires
        from <= to <= link@.len(),
    ensures
        match r {
            None => exists|q: int| from <= q < to && !is_digit(#[trigger] link@[q]),
            Some(v) => (forall|q: int| from <= q < to ==> is_digit(#[trigger] link@[q]))
                && (v <= u64::MAX ==> v == digits_value(link@.subrange(from as int, to as int)))
                && (v > u64::MAX ==> digits_value(link@.subrange(from as int, to as int)) > u64::MAX),
        },
{
    let ghost digits = link@.subrange(from as int, to as int);
    let mut value: u128 = 0;
    let mut overflow = false;
    let mut d: usize = from;
    while d < to
        invariant
            from <= d <= to <= link@.len(),
            digits == link@.subrange(from as int, to as int),
            forall|q: int| from <= q < d ==> is_digit(#[trigger] link@[q]),
            !overflow ==> value == digits_value(digits.take(d - from)) && value <= u64::MAX,
            overflow ==> value == u64::MAX as u128 + 1 && digits_value(digits.take(d - from)) > u64::MAX,
        decreases to - d,
    {
        let c = link.get_char(d);
        if !('0' <= c && c <= '9') {
            return None;
        }
        let digit: u128 = (c as u32 - '0' as u32) as u128;
        assert(digits.take(d + 1 - from).drop_last() =~= digits.take(d - from));
        assert(digits.take(d + 1 - from).last() == c);
        if !overflow {
            value = value * 10 + digit;
            if value > u64::MAX as u128 {
                overflow = true;
                value = u64::MAX as u128 + 1;
            }
        } else {
            assert(digits_value(digits.take(d + 1 - from)) >= digits_value(digits.take(d - from)) * 10) by (nonlinear_arith)
                requires digits_value(digits.take(d + 1 - from)) == digits_value(digits.take(d - from)) * 10 + digit;
        }
        d = d + 1;
    }
    assert(digits.take(to - from) =~= digits);
    Some(value)
}

fn read_name(link: &str, from: usize, to: usize) -> (r: Option<String>)
    requires
        from <= to <= link@.len(),
    ensures
        match r {
            None => exists|q: int| from <= q < to && !is_slug_char(#[trigger] link@[q]),
            Some(t) => (forall|q: int| from <= q < to ==> is_slug_char(#[trigger] link@[q]))
                && t@ == dashes_to_spaces(link@.subrange(from as int, to as int)),
        },
{
    let ghost name = link@.subrange(from as int, to as int);
    let mut t: usize = from;
    let mut title = String::new();
    while t < to
        invariant
            from <= t <= to <= link@.len(),
            name == link@.subrange(from as int, to as int),
            forall|q: int| from <= q < t ==> is_slug_char(#[trigger] link@[q]),
            title@ == dashes_to_spaces(name.take(t - from)),
        decreases to - t,
    {
        let c = link.get_char(t);
        if !slug_char(c) {
            return None;
        }
        push_char(&mut title, if c == '-' { ' ' } else { c });
        assert(dashes_to_spaces(name.take(t + 1 - from)) =~= dashes_to_spaces(name.take(t - from)).push(if c == '-' { ' ' } else { c }));
        t = t + 1;
    }
    assert(name.take(to - from) =~= name);
    Some(title)
}

/// Reads a submitted link: an anime's id and name, or why it is none.
pub fn parse_anilist_link(link: &str) -> (r: AnilistLink)
    ensures
        match anilist_link_parts(link@) {
            None => r is Invalid,
            Some((digits, name)) => if digits_value(digits) <= u64::MAX {
                r matches AnilistLink::Anime { anime_id, title }
                    && anime_id == digits_value(digits) && title@ == dashes_to_spaces(name)
            } else {
                r is IdOutOfRange
            },
        },
{
    let ghost s = link@;
    let ghost p = anilist_prefix();
    let prefix = "https://anilist.co/anime/";
    proof {
        reveal_strlit("https://anilist.co/anime/");
    }
    let n = link.unicode_len();
    let plen = prefix.unicode_len();
    if n < plen {
        return AnilistLink::Invalid;
    }
    let mut i: usize = 0;
    while i < plen
        invariant
            i <= plen <= n,
            n == s.len(),
            s == link@,
            plen == p.len(),
            p == prefix@,
            p == anilist_prefix(),
            forall|k: int| 0 <= k < i ==> s[k] == p[k],
        decreases plen - i,
    {
        if link.get_char(i) != prefix.get_char(i) {
            assert(s.take(plen as int)[i as int] != p[i as int]);
            return AnilistLink::Invalid;
        }
        i = i + 1;
    }
    assert(s.take(plen as int) =~= p);
    let ghost r = s.skip(plen as int);
    let mut j: usize = plen;
    while j < n && link.get_char(j) != '/'
        invariant
            plen <= j <= n,
            n == s.len(),
            s == link@,
            r == s.skip(plen as int),
            plen == anilist_prefix().len(),
            s.take(plen as int) == anilist_prefix(),
            forall|k: int| 0 <= k < j - plen ==> r[k] != '/',
        decreases n - j,
    {
        assert(r[j - plen] == s[j as int]);
        j = j + 1;
    }
    proof {
        lemma_first_slash(r, j - plen);
    }
    let ghost k = j - plen;
    if j >= n {
        return AnilistLink::Invalid;
    }
    let mut end = n;
    if end > j + 1 && link.get_char(end - 1) == '/' {
        end = end - 1;
    }
    let ghost tail = r.skip(k + 1);
    let ghost name = if tail.len() > 0 && tail.last() == '/' { tail.drop_last() } else { tail };
    let ghost digits = r.take(k);
    assert(name =~= s.subrange(j + 1, end as int));
    assert(digits =~= s.subrange(plen as int, j as int));
    assert(anilist_link_parts(s) == link_rest_parts(r));
    assert(first_slash(r) == k);
    if j == plen || end == j + 1 {
        assert(digits.len() == 0 || name.len() == 0);
        return AnilistLink::Invalid;
    }
    let title = match read_name(link, j + 1, end) {
        None => {
            proof {
                let q = choose|q: int| j + 1 <= q < end && !is_slug_char(#[trigger] link@[q]);
                assert(name[q - (j + 1)] == link@[q]);
                assert(!is_slug_char(name[q - (j + 1)]));
                assert(k < r.len());
                let tl = r.skip(k + 1);
                let nm = if tl.len() > 0 && tl.last() == '/' { tl.drop_last() } else { tl };
                assert(nm == name);
                assert(!all_slug_chars(nm));
                assert(link_rest_parts(r) is None);
            }
            return AnilistLink::Invalid;
        },
        Some(t) => t,
    };
    match read_digits(link, plen, j) {
        None => {
            proof {
                let q = choose|q: int| plen <= q < j && !is_digit(#[trigger] link@[q]);
                assert(digits[q - plen] == link@[q]);
                assert(!is_digit(digits[q - plen]));
                assert(link_rest_parts(r) is None);
            }
            AnilistLink::Invalid
        },
        Some(v) => {
            assert forall|q: int| 0 <= q < digits.len() implies is_digit(#[trigger] digits[q]) by {
                assert(digits[q] == link@[q + plen]);
            }
            assert forall|q: int| 0 <= q < name.len() implies is_slug_char(#[trigger] name[q]) by {
                assert(name[q] == link@[q + j + 1]);
            }
            if v > u64::MAX as u128 {
                AnilistLink::IdOutOfRange
            } else {
                AnilistLink::Anime { anime_id: v as u64, title }
            }
        },
    }
}

/// The link to an anime's page: its id, then its name, and a final `/` or not.
pub open spec fn anilist_link(id: u64, name: Seq<char>, final_slash: bool) -> Seq<char> {
    anilist_prefix() + decimal(id as nat) + seq!['/'] + name + (if final_slash { seq!['/'] } else { Seq::empty() })
}

/// Law: the link to an anime's page, written from its id and a name of ASCII
/// letters, digits and dashes, reads back as that id and that name.
pub proof fn lemma_anilist_link_round_trip(id: u64, name: Seq<char>, final_slash: bool)
    requires
        all_slug_chars(name),
    ensures
        anilist_link_parts(anilist_link(id, name, final_slash)) == Some((decimal(id as nat), name)),
        digits_value(decimal(id as nat)) == id,
{
    let p = anilist_prefix();
    let d = decimal(id as nat);
    let opt: Seq<char> = if final_slash { seq!['/'] } else { Seq::empty() };
    let link = anilist_link(id, name, final_slash);
    lemma_decimal_digits(id as nat);
    assert(link.take(p.len() as int) =~= p);
    let r = link.skip(p.len() as int);
    assert(r =~= d + seq!['/'] + name + opt);
    let k = d.len() as int;
    assert forall|i: int| 0 <= i < k implies r[i] != '/' by {
        assert(r[i] == d[i]);
        assert(is_digit(d[i]));
    }
    assert(r[k] == '/');
    lemma_first_slash(r, k);
    assert(r.take(k) =~= d);
    let tail = r.skip(k + 1);
    assert(tail =~= name + opt);
    if final_slash {
        assert(tail.drop_last() =~= name);
    } else {
        assert(tail =~= name);
        assert(is_slug_char(name[name.len() - 1]));
    }
}

/// The most anime one member may submit.
pub open spec fn max_submissions() -> u64 {
    12
}

/// The lookups the submit command makes, in order.
#[derive(PartialEq, Eq, Structural, Clone, Copy, Debug)]
pub enum SubmitQuery {
    /// What is the phase of the event set to? (Anime are submitted in phases 1 and 2.)
    Phase,
    /// Does the user have the swapper role?
    SwapperRole,
    /// Has the user joined the event?
    UserExists,
    /// How many anime has the user submitted?
    SubmissionCount,
    /// Was the anime with this id submitted already?
    AnimeExists(u64),
}

/// What the submit command has learnt so far.
pub struct SubmitFacts {
    pub user_id: u64,
    pub user_name: String,
    /// The link the user gave.
    pub link: String,
    /// The phase setting once read: the text the phase is set to, `None`
    /// when it is not set.
    pub phase: Option<Option<String>>,
    pub swapper_role: Option<Result<bool, ()>>,
    pub user_exists: Option<Result<bool, ()>>,
    pub submission_count: Option<Result<u64, ()>>,
    pub anime_exists: Option<Result<bool, ()>>,
}

/// What the submit command does next.
pub enum SubmitStep {
    Ask(SubmitQuery),
    Reply(Reply),
    /// Record the user as a member of the event, then go on.
    CreateMember { user_id: u64 },
    /// Record the anime as submitted by the user.
    CreateAnime { anime_id: u64, title: String, user_id: u64 },
    /// The link's id does not fit in 64 bits.
    IdOutOfRange,
}

/// The abstract value of a step.
pub enum SubmitStepView {
    Ask(SubmitQuery),
    Reply(ReplyView),
    CreateMember { user_id: u64 },
    CreateAnime { anime_id: u64, title: Seq<char>, user_id: u64 },
    IdOutOfRange,
}

impl View for SubmitStep {
    type V = SubmitStepView;

    open spec fn view(&self) -> SubmitStepView {
        match self {
            SubmitStep::Ask(q) => SubmitStepView::Ask(*q),
            SubmitStep::Reply(r) => SubmitStepView::Reply(r@),
            SubmitStep::CreateMember { user_id } => SubmitStepView::CreateMember { user_id: *user_id },
            SubmitStep::CreateAnime { anime_id, title, user_id } => SubmitStepView::CreateAnime {
                anime_id: *anime_id,
                title: title@,
                user_id: *user_id,
            },
            SubmitStep::IdOutOfRange => SubmitStepView::IdOutOfRange,
        }
    }
}

/// The phases in which anime are submitted: 1 and 2.
pub open spec fn submit_phases() -> Seq<u64> {
    seq![1, 2]
}

/// A reply only the user sees.
pub open spec fn private(text: Seq<char>) -> SubmitStepView {
    SubmitStepView::Reply(ReplyView { text, ephemeral: true })
}

/// The next step of the submit command.
pub open spec fn submit_step(f: SubmitFacts) -> SubmitStepView {
    match phase_answer(f.phase, submit_phases()) {
        None => SubmitStepView::Ask(SubmitQuery::Phase),
        Some(Err(_)) => private("Error checking phases"@),
        Some(Ok(false)) => private("Command is not allowed in current phase"@),
        Some(Ok(true)) => match f.swapper_role {
            None => SubmitStepView::Ask(SubmitQuery::SwapperRole),
            Some(Err(_)) => private("An error has occured"@),
            Some(Ok(false)) => private(f.user_name@ + " does not have the swapper role, and therefore you cannot submit an anime"@),
            Some(Ok(true)) => match f.user_exists {
                None => SubmitStepView::Ask(SubmitQuery::UserExists),
                Some(Err(_)) => private("Error chekcing if users exists"@),
                Some(Ok(false)) => SubmitStepView::CreateMember { user_id: f.user_id },
                Some(Ok(true)) => match f.submission_count {
                    None => SubmitStepView::Ask(SubmitQuery::SubmissionCount),
                    Some(Err(_)) => private("Error counting the submitted anime"@),
                    Some(Ok(count)) => if count >= max_submissions() {
                        private("You have already submitted 12 anime, if you want to submit a different anime you should remove a submission"@)
                    } else {
                        match anilist_link_parts(f.link@) {
                            None => private("You did not provide a valid AL link"@),
                            Some((digits, name)) => if digits_value(digits) > u64::MAX {
                                SubmitStepView::IdOutOfRange
                            } else {
                                match f.anime_exists {
                                    None => SubmitStepView::Ask(SubmitQuery::AnimeExists(digits_value(digits) as u64)),
                                    Some(Err(_)) => private("An error has occured checking if the anime exists"@),
                                    Some(Ok(true)) => private("Anime has already been submitted"@),
                                    Some(Ok(false)) => SubmitStepView::CreateAnime {
                                        anime_id: digits_value(digits) as u64,
                                        title: dashes_to_spaces(name),
                                        user_id: f.user_id,
                                    },
                                }
                            },
                        }
                    },
                },
            },
        },
    }
}

/// The next step of the submit command for what it has learnt so far. An anime
/// is recorded only in a submitting phase, for a swapper with fewer than 12
/// submissions, from a valid link to an anime not submitted before.
pub fn submit_anime_next(facts: &SubmitFacts) -> (r: SubmitStep)
    ensures
        r@ == submit_step(*facts),
        r is CreateAnime ==> (facts.phase matches Some(setting) && (current_phase(setting) matches Some(p) && (p == 1 || p == 2)))
            && facts.swapper_role == Some(Ok::<bool, ()>(true))
            && facts.user_exists == Some(Ok::<bool, ()>(true))
            && (facts.submission_count matches Some(Ok(c)) && c < max_submissions())
            && facts.anime_exists == Some(Ok::<bool, ()>(false))
            && anilist_link_parts(facts.link@) is Some,
{
    let allowed: Vec<u64> = vec![1, 2];
    assert(allowed@ =~= submit_phases());
    match answer_phase(&facts.phase, &allowed) {
        None => return SubmitStep::Ask(SubmitQuery::Phase),
        Some(Err(_)) => return SubmitStep::Reply(private_reply("Error checking phases")),
        Some(Ok(false)) => return SubmitStep::Reply(private_reply("Command is not allowed in current phase")),
        Some(Ok(true)) => {},
    }
    match facts.swapper_role {
        None => return SubmitStep::Ask(SubmitQuery::SwapperRole),
        Some(Err(_)) => return SubmitStep::Reply(private_reply("An error has occured")),
        Some(Ok(false)) => return SubmitStep::Reply(named_private_reply(&facts.user_name, " does not have the swapper role, and therefore you cannot submit an anime")),
        Some(Ok(true)) => {},
    }
    match facts.user_exists {
        None => return SubmitStep::Ask(SubmitQuery::UserExists),
        Some(Err(_)) => return SubmitStep::Reply(private_reply("Error chekcing if users exists")),
        Some(Ok(false)) => return SubmitStep::CreateMember { user_id: facts.user_id },
        Some(Ok(true)) => {},
    }
    match facts.submission_count {
        None => return SubmitStep::Ask(SubmitQuery::SubmissionCount),
        Some(Err(_)) => return SubmitStep::Reply(private_reply("Error counting the submitted anime")),
        Some(Ok(count)) => if count >= 12 {
            return SubmitStep::Reply(private_reply("You have already submitted 12 anime, if you want to submit a different anime you should remove a submission"));
        },
    }
    match parse_anilist_link(facts.link.as_str()) {
        AnilistLink::Invalid => SubmitStep::Reply(private_reply("You did not provide a valid AL link")),
        AnilistLink::IdOutOfRange => SubmitStep::IdOutOfRange,
        AnilistLink::Anime { anime_id, title } => match facts.anime_exists {
            None => SubmitStep::Ask(SubmitQuery::AnimeExists(anime_id)),
            Some(Err(_)) => SubmitStep::Reply(private_reply("An error has occured checking if the anime exists")),
            Some(Ok(true)) => SubmitStep::Reply(private_reply("Anime has already been submitted")),
            Some(Ok(false)) => SubmitStep::CreateAnime { anime_id, title, user_id: facts.user_id },
        },
    }
}

/// The reply once the anime was recorded.
pub fn submitted_reply() -> (r: Reply)
    ensures
        r@ == (ReplyView { text: "Anime was submitted successfully"@, ephemeral: true }),
{
    private_reply("Anime was submitted successfully")
}

} // verus!
