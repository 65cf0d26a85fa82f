use vstd::prelude::*;
use vstd::string::*;

use crate::helpers::{display_lines, display_str_vec};
use crate::sorting::{in_order, insertion_sorted, lemma_insert_at, lemma_insertion_sorted, total_preorder};
use crate::text::{decimal, push_decimal};
use crate::team_swapping::team_swap_utils::{Reply, ReplyView, named_private_reply, private_reply};
use crate::types::{SubmittedAnime, strings_view};

verus! {

/// A team and the names of its members.
pub struct TeamSummary {
    pub team_name: String,
    pub member_names: Vec<String>,
}

/// A member and how many anime they submitted.
pub struct SubmissionCount {
    pub member_name: String,
    pub count: u64,
}

/// The number of members of a team.
pub open spec fn team_size(t: TeamSummary) -> nat {
    t.member_names@.len()
}

/// The count of a submission tally.
pub open spec fn tally(c: SubmissionCount) -> nat {
    c.count as nat
}

/// Whether team `a` may stay before team `b`: it has no more members.
pub open spec fn by_team_size() -> spec_fn(TeamSummary, TeamSummary) -> bool {
    |a: TeamSummary, b: TeamSummary| team_size(a) <= team_size(b)
}

/// Whether tally `a` may stay before tally `b`: its count is not larger.
pub open spec fn by_tally() -> spec_fn(SubmissionCount, SubmissionCount) -> bool {
    |a: SubmissionCount, b: SubmissionCount| tally(a) <= tally(b)
}

/// Law: the teams of the status report come from smallest to largest, and
/// they are the teams given, none lost and none added.
pub proof fn lemma_teams_by_size(teams: Seq<TeamSummary>)
    ensures
        in_order(insertion_sorted(teams, by_team_size()), by_team_size()),
        insertion_sorted(teams, by_team_size()).to_multiset() == teams.to_multiset(),
{
    lemma_insertion_sorted(teams, by_team_size());
}

/// Law: the members of the status report come from fewest submissions to most,
/// and they are the tallies given, none lost and none added.
pub proof fn lemma_tallies_by_count(counts: Seq<SubmissionCount>)
    ensures
        in_order(insertion_sorted(counts, by_tally()), by_tally()),
        insertion_sorted(counts, by_tally()).to_multiset() == counts.to_multiset(),
{
    lemma_insertion_sorted(counts, by_tally());
}

/// Orders teams by their number of members, stably.
pub fn sort_teams_by_size(teams: Vec<TeamSummary>) -> (r: Vec<TeamSummary>)
    ensures
        r@ == insertion_sorted(teams@, by_team_size()),
{
    let mut teams = teams;
    let ghost input = teams@;
    let total = teams.len();
    let mut out: Vec<TeamSummary> = Vec::new();
    let mut taken: usize = 0;
    while teams.len() > 0
        invariant
            taken + teams@.len() == input.len(),
            input.len() == total,
            teams@ == input.skip(taken as int),
            out@ == insertion_sorted(input.take(taken as int), by_team_size()),
        decreases teams@.len(),
    {
        let x = teams.remove(0);
        let n = x.member_names.len();
        let mut p = out.len();
        while p > 0 && out[p - 1].member_names.len() > n
            invariant
                p <= out@.len(),
                n == team_size(x),
                forall|k: int| p <= k < out@.len() ==> team_size(#[trigger] out@[k]) > team_size(x),
            decreases p,
        {
            p = p - 1;
        }
        proof {
            lemma_insert_at(out@, x, by_team_size(), p as int);
            assert(input.take(taken + 1).drop_last() =~= input.take(taken as int));
            assert(input.take(taken + 1).last() == x);
        }
        out.insert(p, x);
        taken = taken + 1;
        assert(teams@ =~= input.skip(taken as int));
    }
    assert(input.take(input.len() as int) =~= input);
    out
}

/// Orders submission tallies by count, stably.
pub fn sort_tallies(counts: Vec<SubmissionCount>) -> (r: Vec<SubmissionCount>)
    ensures
        r@ == insertion_sorted(counts@, by_tally()),
{
    let mut counts = counts;
    let ghost input = counts@;
    let total = counts.len();
    let mut out: Vec<SubmissionCount> = Vec::new();
    let mut taken: usize = 0;
    while counts.len() > 0
        invariant
            taken + counts@.len() == input.len(),
            input.len() == total,
            counts@ == input.skip(taken as int),
            out@ == insertion_sorted(input.take(taken as int), by_tally()),
        decreases counts@.len(),
    {
        let x = counts.remove(0);
        let n = x.count;
        let mut p = out.len();
        while p > 0 && out[p - 1].count > n
            invariant
                p <= out@.len(),
                n == tally(x),
                forall|k: int| p <= k < out@.len() ==> tally(#[trigger] out@[k]) > tally(x),
            decreases p,
        {
            p = p - 1;
        }
        proof {
            lemma_insert_at(out@, x, by_tally(), p as int);
            assert(input.take(taken + 1).drop_last() =~= input.take(taken as int));
            assert(input.take(taken + 1).last() == x);
        }
        out.insert(p, x);
        taken = taken + 1;
        assert(counts@ =~= input.skip(taken as int));
    }
    assert(input.take(input.len() as int) =~= input);
    out
}

/// The lines listing the users in no team.
pub open spec fn lonely_lines(names: Seq<Seq<char>>) -> Seq<char>
    decreases names.len(),
{
    if names.len() == 0 {
        Seq::empty()
    } else {
        lonely_lines(names.drop_last()) + names.last() + "\n"@
    }
}

/// The lines giving the size of each team.
pub open spec fn team_lines(teams: Seq<TeamSummary>) -> Seq<char>
    decreases teams.len(),
{
    if teams.len() == 0 {
        Seq::empty()
    } else {
        team_lines(teams.drop_last()) + teams.last().team_name@ + " number of members: "@
            + decimal(team_size(teams.last())) + "\n"@
    }
}

/// The lines giving each member's submissions out of 12.
pub open spec fn tally_lines(counts: Seq<SubmissionCount>) -> Seq<char>
    decreases counts.len(),
{
    if counts.len() == 0 {
        Seq::empty()
    } else {
        tally_lines(counts.drop_last()) + counts.last().member_name@ + " has submitted ("@
            + decimal(tally(counts.last())) + "/12) anime\n"@
    }
}

/// The status report for the hosts: the users in no team, the teams from
/// smallest to largest, and the members from fewest submissions to most.
pub open spec fn status_text(lonely: Seq<Seq<char>>, teams: Seq<TeamSummary>, counts: Seq<SubmissionCount>) -> Seq<char> {
    "Users who are not yet in a team:\n"@ + lonely_lines(lonely)
        + "\nTeams sorted by amount of members:\n"@
        + team_lines(insertion_sorted(teams, by_team_size()))
        + "\nNumber of submissions per member:\n"@
        + tally_lines(insertion_sorted(counts, by_tally()))
}

/// Writes the status report for the hosts.
pub fn status_report(lonely_users: &Vec<String>, teams: Vec<TeamSummary>, counted_submissions: Vec<SubmissionCount>) -> (r: String)
    ensures
        r@ == status_text(strings_view(lonely_users@), teams@, counted_submissions@),
{
    let teams = sort_teams_by_size(teams);
    let counts = sort_tallies(counted_submissions);
    let mut buffer = String::from_str("Users who are not yet in a team:\n");
    let ghost start = buffer@;
    let mut i: usize = 0;
    while i < lonely_users.len()
        invariant
            i <= lonely_users@.len(),
            buffer@ == start + lonely_lines(strings_view(lonely_users@.take(i as int))),
        decreases lonely_users@.len() - i,
    {
        buffer.append(lonely_users[i].as_str());
        buffer.append("\n");
        assert(strings_view(lonely_users@.take(i + 1)).drop_last() =~= strings_view(lonely_users@.take(i as int)));
        assert(buffer@ =~= start + lonely_lines(strings_view(lonely_users@.take(i + 1))));
        i = i + 1;
    }
    assert(lonely_users@.take(lonely_users@.len() as int) =~= lonely_users@);
    buffer.append("\nTeams sorted by amount of members:\n");
    let ghost mid = buffer@;
    let mut j: usize = 0;
    while j < teams.len()
        invariant
            j <= teams@.len(),
            buffer@ == mid + team_lines(teams@.take(j as int)),
        decreases teams@.len() - j,
    {
        buffer.append(teams[j].team_name.as_str());
        buffer.append(" number of members: ");
        push_decimal(&mut buffer, teams[j].member_names.len() as u64);
        buffer.append("\n");
        assert(teams@.take(j + 1).drop_last() =~= teams@.take(j as int));
        assert(buffer@ =~= mid + team_lines(teams@.take(j + 1)));
        j = j + 1;
    }
    assert(teams@.take(teams@.len() as int) =~= teams@);
    buffer.append("\nNumber of submissions per member:\n");
    let ghost tail_start = buffer@;
    let mut k: usize = 0;
    while k < counts.len()
        invariant
            k <= counts@.len(),
            buffer@ == tail_start + tally_lines(counts@.take(k as int)),
        decreases counts@.len() - k,
    {
        buffer.append(counts[k].member_name.as_str());
        buffer.append(" has submitted (");
        push_decimal(&mut buffer, counts[k].count);
        buffer.append("/12) anime\n");
        assert(counts@.take(k + 1).drop_last() =~= counts@.take(k as int));
        assert(buffer@ =~= tail_start + tally_lines(counts@.take(k + 1)));
        k = k + 1;
    }
    assert(counts@.take(counts@.len() as int) =~= counts@);
    buffer
}

/// The lookups the status command makes, in order.
#[derive(PartialEq, Eq, Structural, Clone, Copy, Debug)]
pub enum StatusQuery {
    /// Does the user have the host role?
    HostRole,
    /// Which teams are there, with their members?
    Teams,
    /// How many anime has each member submitted?
    Submissions,
    /// Which users are in no team?
    LonelyUsers,
}

/// What the status command has learnt so far.
pub struct StatusFacts {
    /// The user's name.
    pub user_name: String,
    pub host_role: Option<Result<bool, ()>>,
    pub teams: Option<Result<Vec<TeamSummary>, ()>>,
    pub counts: Option<Result<Vec<SubmissionCount>, ()>>,
    pub lonely_users: Option<Result<Vec<String>, ()>>,
}

/// What the status command does next.
pub enum StatusStep {
    Ask(StatusQuery),
    Reply(Reply),
    /// Every lookup is in: write the report and send it to the user.
    SendReport,
}

/// The abstract value of a step.
pub enum StatusStepView {
    Ask(StatusQuery),
    Reply(ReplyView),
    SendReport,
}

impl View for StatusStep {
    type V = StatusStepView;

    open spec fn view(&self) -> StatusStepView {
        match self {
            StatusStep::Ask(q) => StatusStepView::Ask(*q),
            StatusStep::Reply(r) => StatusStepView::Reply(r@),
            StatusStep::SendReport => StatusStepView::SendReport,
        }
    }
}

/// A reply only the user sees.
pub open spec fn private(text: Seq<char>) -> StatusStepView {
    StatusStepView::Reply(ReplyView { text, ephemeral: true })
}

/// The next step of the status command: only a host gets the report.
pub open spec fn status_step(f: StatusFacts) -> StatusStepView {
    match f.host_role {
        None => StatusStepView::Ask(StatusQuery::HostRole),
        Some(Err(_)) => private("An error has occured checking roles"@),
        Some(Ok(false)) => private(f.user_name@ + " does not have the host role, and therefore you can't check the status"@),
        Some(Ok(true)) => match f.teams {
            None => StatusStepView::Ask(StatusQuery::Teams),
            Some(Err(_)) => private("Error fetching teams"@),
            Some(Ok(_)) => match f.counts {
                None => StatusStepView::Ask(StatusQuery::Submissions),
                Some(Err(_)) => private("Error fetching submissions"@),
                Some(Ok(_)) => match f.lonely_users {
                    None => StatusStepView::Ask(StatusQuery::LonelyUsers),
                    Some(Err(_)) => private("Error fetching users"@),
                    Some(Ok(_)) => StatusStepView::SendReport,
                },
            },
        },
    }
}

/// The next step of the status command for what it has learnt so far. The
/// report is sent only to a host, once every lookup succeeded.
pub fn status_next(facts: &StatusFacts) -> (r: StatusStep)
    ensures
        r@ == status_step(*facts),
        r is SendReport ==> facts.host_role == Some(Ok::<bool, ()>(true)),
{
    match facts.host_role {
        None => return StatusStep::Ask(StatusQuery::HostRole),
        Some(Err(_)) => return StatusStep::Reply(private_reply("An error has occured checking roles")),
        Some(Ok(false)) => return StatusStep::Reply(named_private_reply(&facts.user_name, " does not have the host role, and therefore you can't check the status")),
        Some(Ok(true)) => {},
    }
    match facts.teams {
        None => return StatusStep::Ask(StatusQuery::Teams),
        Some(Err(_)) => return StatusStep::Reply(private_reply("Error fetching teams")),
        Some(Ok(_)) => {},
    }
    match facts.counts {
        None => return StatusStep::Ask(StatusQuery::Submissions),
        Some(Err(_)) => return StatusStep::Reply(private_reply("Error fetching submissions")),
        Some(Ok(_)) => {},
    }
    match facts.lonely_users {
        None => StatusStep::Ask(StatusQuery::LonelyUsers),
        Some(Err(_)) => StatusStep::Reply(private_reply("Error fetching users")),
        Some(Ok(_)) => StatusStep::SendReport,
    }
}

/// The report the status command sends: written only when the step is to
/// send it, that is for a host once every lookup succeeded; `None` otherwise.
pub fn status_report_from(facts: StatusFacts) -> (r: Option<String>)
    ensures
        r is Some <==> status_step(facts) is SendReport,
        r is Some ==> facts.host_role == Some(Ok::<bool, ()>(true)),
        r matches Some(t) ==> (facts.teams matches Some(Ok(teams)) && (facts.counts matches Some(Ok(counts))
            && (facts.lonely_users matches Some(Ok(lonely)) && t@ == status_text(strings_view(lonely@), teams@, counts@)))),
{
    let StatusFacts { user_name: _, host_role, teams, counts, lonely_users } = facts;
    match (host_role, teams, counts, lonely_users) {
        (Some(Ok(true)), Some(Ok(t)), Some(Ok(c)), Some(Ok(u))) => Some(status_report(&u, t, c)),
        _ => None,
    }
}

/// The reply once the report was sent to the user (`sent`) or sending failed.
pub fn status_sent_reply(sent: bool) -> (r: Reply)
    ensures
        sent ==> r@ == (ReplyView { text: "Successfully sent status"@, ephemeral: true }),
        !sent ==> r@ == (ReplyView { text: "Error sending status"@, ephemeral: true }),
{
    if sent {
        private_reply("Successfully sent status")
    } else {
        private_reply("Error sending status")
    }
}

/// The line that shows one team.
pub open spec fn team_display(t: TeamSummary) -> Seq<char> {
    "Team: "@ + t.team_name@ + " has members: "@ + display_lines(strings_view(t.member_names@))
}

/// The message that lists the teams.
pub open spec fn teams_text(teams: Seq<TeamSummary>) -> Seq<char> {
    if teams.len() == 0 {
        display_lines(seq!["There are no teams to be displayed"@])
    } else {
        display_lines(teams.map_values(|t: TeamSummary| team_display(t)))
    }
}

/// Lists the teams with their members, one team per line.
pub fn display_teams_text(teams: &Vec<TeamSummary>) -> (r: String)
    ensures
        r@ == teams_text(teams@),
{
    let mut message: Vec<String> = Vec::new();
    if teams.len() == 0 {
        message.push(String::from_str("There are no teams to be displayed"));
        assert(strings_view(message@) =~= seq!["There are no teams to be displayed"@]);
    }
    let mut i: usize = 0;
    while i < teams.len()
        invariant
            i <= teams@.len(),
            teams@.len() > 0 ==> strings_view(message@) == teams@.take(i as int).map_values(|t: TeamSummary| team_display(t)),
            teams@.len() == 0 ==> strings_view(message@) == seq!["There are no teams to be displayed"@],
        decreases teams@.len() - i,
    {
        let members = display_str_vec(&teams[i].member_names);
        let mut line = String::from_str("Team: ");
        line.append(teams[i].team_name.as_str());
        line.append(" has members: ");
        line.append(members.as_str());
        assert(line@ == team_display(teams@[i as int]));
        let ghost before = strings_view(message@);
        message.push(line);
        assert(strings_view(message@) =~= before.push(team_display(teams@[i as int])));
        assert(strings_view(message@) =~= teams@.take(i + 1).map_values(|t: TeamSummary| team_display(t)));
        i = i + 1;
    }
    assert(teams@.take(teams@.len() as int) =~= teams@);
    display_str_vec(&message)
}

/// Whether `a` comes before `b` in the order of strings: character by
/// character by code point, a proper prefix first.
pub open spec fn str_less(a: Seq<char>, b: Seq<char>) -> bool
    decreases a.len(),
{
    if b.len() == 0 {
        false
    } else if a.len() == 0 {
        true
    } else if a[0] < b[0] {
        true
    } else if a[0] > b[0] {
        false
    } else {
        str_less(a.drop_first(), b.drop_first())
    }
}

/// Whether `a` comes before `b` in the order of strings.
pub fn string_less(a: &str, b: &str) -> (r: bool)
    ensures
        r == str_less(a@, b@),
{
    let n = a.unicode_len();
    let m = b.unicode_len();
    let mut i: usize = 0;
    assert(a@.skip(0) =~= a@ && b@.skip(0) =~= b@);
    while i < n && i < m
        invariant
            i <= n,
            i <= m,
            n == a@.len(),
            m == b@.len(),
            str_less(a@, b@) == str_less(a@.skip(i as int), b@.skip(i as int)),
        decreases n - i,
    {
        let x = a.get_char(i);
        let y = b.get_char(i);
        assert(a@.skip(i as int)[0] == x && b@.skip(i as int)[0] == y);
        if x < y {
            return true;
        }
        if x > y {
            return false;
        }
        assert(a@.skip(i as int).drop_first() =~= a@.skip(i + 1));
        assert(b@.skip(i as int).drop_first() =~= b@.skip(i + 1));
        i = i + 1;
    }
    i < m
}

proof fn lemma_str_less_asymmetric(a: Seq<char>, b: Seq<char>)
    ensures
        !(str_less(a, b) && str_less(b, a)),
    decreases a.len(),
{
    if a.len() > 0 && b.len() > 0 && a[0] == b[0] {
        lemma_str_less_asymmetric(a.drop_first(), b.drop_first());
    }
}

proof fn lemma_str_less_transitive(a: Seq<char>, b: Seq<char>, c: Seq<char>)
    requires
        str_less(a, b),
        str_less(b, c),
    ensures
        str_less(a, c),
    decreases a.len(),
{
    if a.len() > 0 && b.len() > 0 && c.len() > 0 && a[0] == b[0] && b[0] == c[0] {
        lemma_str_less_transitive(a.drop_first(), b.drop_first(), c.drop_first());
    }
}

proof fn lemma_str_less_total(a: Seq<char>, b: Seq<char>)
    requires
        a != b,
    ensures
        str_less(a, b) || str_less(b, a),
    decreases a.len(),
{
    if a.len() == 0 && b.len() == 0 {
        assert(a =~= b);
    } else if a.len() > 0 && b.len() > 0 && a[0] == b[0] {
        if a.drop_first() == b.drop_first() {
            assert(a.drop_first().len() == a.len() - 1 && b.drop_first().len() == b.len() - 1);
            assert(a =~= b) by {
                assert forall|i: int| 0 <= i < a.len() implies a[i] == b[i] by {
                    if i > 0 {
                        assert(a[i] == a.drop_first()[i - 1]);
                        assert(b[i] == b.drop_first()[i - 1]);
                    }
                }
            }
        }
        lemma_str_less_total(a.drop_first(), b.drop_first());
    }
}

/// Whether anime `a` may stay before anime `b`: `b`'s name does not come
/// before `a`'s.
pub open spec fn by_name() -> spec_fn(SubmittedAnime, SubmittedAnime) -> bool {
    |a: SubmittedAnime, b: SubmittedAnime| !str_less(b.anime_name@, a.anime_name@)
}

/// `s` in order of name, anime with equal names keeping their order.
pub open spec fn sorted_by_name(s: Seq<SubmittedAnime>) -> Seq<SubmittedAnime> {
    insertion_sorted(s, by_name())
}

proof fn lemma_not_less_transitive(a: Seq<char>, b: Seq<char>, c: Seq<char>)
    requires
        !str_less(b, a),
        !str_less(c, b),
    ensures
        !str_less(c, a),
{
    if str_less(c, a) {
        if a == b {
        } else if b == c {
        } else {
            lemma_str_less_total(a, b);
            lemma_str_less_total(b, c);
            lemma_str_less_transitive(a, b, c);
            lemma_str_less_asymmetric(a, c);
        }
    }
}

proof fn lemma_by_name_total_preorder()
    ensures
        total_preorder(by_name()),
{
    assert forall|a: SubmittedAnime, b: SubmittedAnime| #[trigger] by_name()(a, b) || by_name()(b, a) by {
        lemma_str_less_asymmetric(a.anime_name@, b.anime_name@);
    }
    assert forall|a: SubmittedAnime, b: SubmittedAnime, c: SubmittedAnime|
        #[trigger] by_name()(a, b) && #[trigger] by_name()(b, c) implies by_name()(a, c) by {
        lemma_not_less_transitive(a.anime_name@, b.anime_name@, c.anime_name@);
    }
}

/// Law: the submitted anime come out in name order, and they are the anime
/// given, none lost and none added.
pub proof fn lemma_sorted_by_name(s: Seq<SubmittedAnime>)
    ensures
        in_order(sorted_by_name(s), by_name()),
        sorted_by_name(s).to_multiset() == s.to_multiset(),
        sorted_by_name(s).len() == s.len(),
{
    lemma_by_name_total_preorder();
    lemma_insertion_sorted(s, by_name());
}

/// Orders the submitted anime by name, stably (the listing the web route serves).
pub fn sort_anime_by_name(anime: Vec<SubmittedAnime>) -> (r: Vec<SubmittedAnime>)
    ensures
        r@ == sorted_by_name(anime@),
{
    let mut anime = anime;
    let ghost input = anime@;
    let total = anime.len();
    let mut out: Vec<SubmittedAnime> = Vec::new();
    let mut taken: usize = 0;
    while anime.len() > 0
        invariant
            taken + anime@.len() == input.len(),
            input.len() == total,
            anime@ == input.skip(taken as int),
            out@ == sorted_by_name(input.take(taken as int)),
        decreases anime@.len(),
    {
        let x = anime.remove(0);
        let mut p = out.len();
        while p > 0 && string_less(x.anime_name.as_str(), out[p - 1].anime_name.as_str())
            invariant
                p <= out@.len(),
                forall|k: int| p <= k < out@.len() ==> str_less(x.anime_name@, (#[trigger] out@[k]).anime_name@),
            decreases p,
        {
            p = p - 1;
        }
        proof {
            lemma_insert_at(out@, x, by_name(), p as int);
            assert(input.take(taken + 1).drop_last() =~= input.take(taken as int));
            assert(input.take(taken + 1).last() == x);
        }
        out.insert(p, x);
        taken = taken + 1;
        assert(anime@ =~= input.skip(taken as int));
    }
    assert(input.take(input.len() as int) =~= input);
    out
}

} // verus!
