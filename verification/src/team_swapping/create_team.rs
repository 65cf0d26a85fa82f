use vstd::prelude::*;
use vstd::string::*;

use crate::text::{decimal, push_decimal};
use crate::team_swapping::team_swap_utils::{
    Reply, ReplyView, answer_phase, current_phase, named_private_reply, phase_answer, private_reply,
};

verus! {

/// The lookups the team creation makes, in order; member lookups name the
/// position of the member.
#[derive(PartialEq, Eq, Structural, Clone, Copy, Debug)]
pub enum CreateTeamQuery {
    /// What is the phase of the event set to? (Teams are formed in phase 2.)
    Phase,
    /// Does the member have the swapper role?
    SwapperRole(usize),
    /// Has the member joined the event?
    MemberExists(usize),
    /// Is the member in a team already?
    MemberInTeam(usize),
    /// How many anime has the member submitted?
    Submissions(usize),
    /// Is there a team of that name already?
    TeamExists,
}

/// What the team creation has learnt about one would-be member.
pub struct MemberFacts {
    pub id: u64,
    /// The name the member is shown by.
    pub global_name: String,
    /// The member's user name.
    pub name: String,
    pub swapper_role: Option<Result<bool, ()>>,
    pub exists: Option<Result<bool, ()>>,
    pub in_team: Option<Result<Option<u64>, ()>>,
    pub submitted_count: Option<Result<u64, ()>>,
}

/// What the team creation has learnt so far.
pub struct CreateTeamFacts {
    pub author_id: u64,
    pub team_name: String,
    /// The phase setting once read: the text the phase is set to, `None`
    /// when it is not set.
    pub phase: Option<Option<String>>,
    /// The members in the order given; the first one should be the author.
    pub members: Vec<MemberFacts>,
    pub team_exists: Option<Result<bool, ()>>,
}

/// What the team creation does next.
pub enum CreateTeamStep {
    Ask(CreateTeamQuery),
    Reply(Reply),
    Create,
}

/// The abstract value of a step.
pub enum CreateTeamStepView {
    Ask(CreateTeamQuery),
    Reply(ReplyView),
    Create,
}

impl View for CreateTeamStep {
    type V = CreateTeamStepView;

    open spec fn view(&self) -> CreateTeamStepView {
        match self {
            CreateTeamStep::Ask(q) => CreateTeamStepView::Ask(*q),
            CreateTeamStep::Reply(r) => CreateTeamStepView::Reply(r@),
            CreateTeamStep::Create => CreateTeamStepView::Create,
        }
    }
}

/// The phases in which teams are formed: the team-forming phase, 2.
pub open spec fn create_team_phases() -> Seq<u64> {
    seq![2]
}

/// A reply only the user sees.
pub open spec fn private(text: Seq<char>) -> CreateTeamStepView {
    CreateTeamStepView::Reply(ReplyView { text, ephemeral: true })
}

/// The fewest anime a member must have submitted before joining a team.
pub open spec fn min_submissions() -> u64 {
    7
}

/// The step the checks of member `i` call for, or `None` when they all passed.
pub open spec fn member_step(m: MemberFacts, i: usize) -> Option<CreateTeamStepView> {
    match m.swapper_role {
        None => Some(CreateTeamStepView::Ask(CreateTeamQuery::SwapperRole(i))),
        Some(Err(_)) => Some(private("An error has occured checking roles"@)),
        Some(Ok(false)) => Some(private(m.global_name@ + " does not have the swapper role, and therefore a team cannot be created"@)),
        Some(Ok(true)) => match m.exists {
            None => Some(CreateTeamStepView::Ask(CreateTeamQuery::MemberExists(i))),
            Some(Err(_)) => Some(private("An error has occured checking if users exists"@)),
            Some(Ok(false)) => Some(private(m.global_name@ + " has not joined yet"@)),
            Some(Ok(true)) => match m.in_team {
                None => Some(CreateTeamStepView::Ask(CreateTeamQuery::MemberInTeam(i))),
                Some(Err(_)) => Some(private("An error has occured checking if the user is already in a team"@)),
                Some(Ok(Some(_))) => Some(private(m.name@ + " is already in a team and thus cannot be added"@)),
                Some(Ok(None)) => match m.submitted_count {
                    None => Some(CreateTeamStepView::Ask(CreateTeamQuery::Submissions(i))),
                    Some(Err(_)) => Some(private("Error checking submitted anime"@)),
                    Some(Ok(n)) => if n < min_submissions() {
                        Some(private("You should have at least submitted 7 anime before joining a team"@))
                    } else {
                        None
                    },
                },
            },
        },
    }
}

/// The step the checks of the members from position `i` on call for, member
/// by member; `None` when every one passed.
pub open spec fn members_step(ms: Seq<MemberFacts>, i: int) -> Option<CreateTeamStepView>
    decreases ms.len() - i,
{
    if i < 0 || i >= ms.len() {
        None
    } else {
        match member_step(ms[i], i as usize) {
            Some(s) => Some(s),
            None => members_step(ms, i + 1),
        }
    }
}

/// The next step of the team creation.
pub open spec fn create_team_step(f: CreateTeamFacts) -> CreateTeamStepView {
    match phase_answer(f.phase, create_team_phases()) {
        None => CreateTeamStepView::Ask(CreateTeamQuery::Phase),
        Some(Err(_)) => private("Error checking phases"@),
        Some(Ok(false)) => private("Command is not allowed in current phase"@),
        Some(Ok(true)) => if f.members@.len() == 0 || f.members@[0].id != f.author_id {
            private("You should be the first member of your team"@)
        } else {
            match members_step(f.members@, 0) {
                Some(s) => s,
                None => match f.team_exists {
                    None => CreateTeamStepView::Ask(CreateTeamQuery::TeamExists),
                    Some(Err(_)) => private("An error has occured checking teams"@),
                    Some(Ok(true)) => private("A team with this name already exists, please pick another one"@),
                    Some(Ok(false)) => CreateTeamStepView::Create,
                },
            }
        },
    }
}

/// A member may join a new team: swapper role, joined, in no team, and at
/// least 7 anime submitted.
pub open spec fn member_eligible(m: MemberFacts) -> bool {
    &&& m.swapper_role == Some(Ok::<bool, ()>(true))
    &&& m.exists == Some(Ok::<bool, ()>(true))
    &&& m.in_team == Some(Ok::<Option<u64>, ()>(None))
    &&& (m.submitted_count matches Some(Ok(n)) && n >= min_submissions())
}

/// Every rule of team creation holds: the team-forming phase, the author first,
/// every member eligible, and the name not taken.
pub open spec fn team_allowed(f: CreateTeamFacts) -> bool {
    &&& (f.phase matches Some(setting) && current_phase(setting) == Some(2u64))
    &&& f.members@.len() > 0 && f.members@[0].id == f.author_id
    &&& forall|i: int| 0 <= i < f.members@.len() ==> member_eligible(#[trigger] f.members@[i])
    &&& f.team_exists == Some(Ok::<bool, ()>(false))
}

proof fn lemma_members_step_none(ms: Seq<MemberFacts>, i: int)
    requires
        0 <= i,
        members_step(ms, i) is None,
    ensures
        forall|k: int| i <= k < ms.len() ==> member_eligible(#[trigger] ms[k]),
    decreases ms.len() - i,
{
    if i < ms.len() {
        lemma_members_step_none(ms, i + 1);
        assert forall|k: int| i <= k < ms.len() implies member_eligible(#[trigger] ms[k]) by {
            if k == i {
                assert(member_step(ms[i], i as usize) is None);
            }
        }
    }
}

fn member_next(m: &MemberFacts, i: usize) -> (r: Option<CreateTeamStep>)
    ensures
        r is None <==> member_step(*m, i) is None,
        r matches Some(s) ==> member_step(*m, i) == Some(s@),
{
    match m.swapper_role {
        None => return Some(CreateTeamStep::Ask(CreateTeamQuery::SwapperRole(i))),
        Some(Err(_)) => return Some(CreateTeamStep::Reply(private_reply("An error has occured checking roles"))),
        Some(Ok(false)) => return Some(CreateTeamStep::Reply(named_private_reply(&m.global_name, " does not have the swapper role, and therefore a team cannot be created"))),
        Some(Ok(true)) => {},
    }
    match m.exists {
        None => return Some(CreateTeamStep::Ask(CreateTeamQuery::MemberExists(i))),
        Some(Err(_)) => return Some(CreateTeamStep::Reply(private_reply("An error has occured checking if users exists"))),
        Some(Ok(false)) => return Some(CreateTeamStep::Reply(named_private_reply(&m.global_name, " has not joined yet"))),
        Some(Ok(true)) => {},
    }
    match m.in_team {
        None => return Some(CreateTeamStep::Ask(CreateTeamQuery::MemberInTeam(i))),
        Some(Err(_)) => return Some(CreateTeamStep::Reply(private_reply("An error has occured checking if the user is already in a team"))),
        Some(Ok(Some(_))) => return Some(CreateTeamStep::Reply(named_private_reply(&m.name, " is already in a team and thus cannot be added"))),
        Some(Ok(None)) => {},
    }
    match m.submitted_count {
        None => Some(CreateTeamStep::Ask(CreateTeamQuery::Submissions(i))),
        Some(Err(_)) => Some(CreateTeamStep::Reply(private_reply("Error checking submitted anime"))),
        Some(Ok(n)) => if n < 7 {
            Some(CreateTeamStep::Reply(private_reply("You should have at least submitted 7 anime before joining a team")))
        } else {
            None
        },
    }
}

/// The next step of the team creation for what it has learnt so far. A team is
/// created only when every rule of team creation holds.
pub fn create_team_next(facts: &CreateTeamFacts) -> (r: CreateTeamStep)
    ensures
        r@ == create_team_step(*facts),
        r is Create ==> team_allowed(*facts),
{
    let allowed: Vec<u64> = vec![2];
    assert(allowed@ =~= create_team_phases());
    match answer_phase(&facts.phase, &allowed) {
        None => return CreateTeamStep::Ask(CreateTeamQuery::Phase),
        Some(Err(_)) => return CreateTeamStep::Reply(private_reply("Error checking phases")),
        Some(Ok(false)) => return CreateTeamStep::Reply(private_reply("Command is not allowed in current phase")),
        Some(Ok(true)) => {},
    }
    if facts.members.len() == 0 || facts.members[0].id != facts.author_id {
        return CreateTeamStep::Reply(private_reply("You should be the first member of your team"));
    }
    let ghost ms = facts.members@;
    let mut i: usize = 0;
    while i < facts.members.len()
        invariant
            i <= ms.len(),
            ms == facts.members@,
            members_step(ms, 0) == members_step(ms, i as int),
            phase_answer(facts.phase, create_team_phases()) == Some(Ok::<bool, ()>(true)),
            ms.len() > 0 && ms[0].id == facts.author_id,
        decreases ms.len() - i,
    {
        match member_next(&facts.members[i], i) {
            Some(s) => {
                assert(members_step(ms, i as int) == Some(s@));
                return s;
            },
            None => {},
        }
        i = i + 1;
    }
    proof {
        lemma_members_step_none(ms, 0);
    }
    match facts.team_exists {
        None => CreateTeamStep::Ask(CreateTeamQuery::TeamExists),
        Some(Err(_)) => CreateTeamStep::Reply(private_reply("An error has occured checking teams")),
        Some(Ok(true)) => CreateTeamStep::Reply(private_reply("A team with this name already exists, please pick another one")),
        Some(Ok(false)) => CreateTeamStep::Create,
    }
}

/// The mentions of the members: `<@id> ` for each.
pub open spec fn mentions(ids: Seq<u64>) -> Seq<char>
    decreases ids.len(),
{
    if ids.len() == 0 {
        Seq::empty()
    } else {
        mentions(ids.drop_last()) + "<@"@ + decimal(ids.last() as nat) + "> "@
    }
}

/// The announcement of a new team (to the whole channel), or the private
/// error reply when storing it failed.
pub fn create_team_result_reply(team_name: &str, member_ids: &Vec<u64>, created: bool) -> (r: Reply)
    ensures
        created ==> r@ == (ReplyView {
            text: "Team "@ + team_name@ + " has been created with the members: "@ + mentions(member_ids@),
            ephemeral: false,
        }),
        !created ==> r@ == (ReplyView { text: "An error occured creating the team"@, ephemeral: true }),
{
    if !created {
        return private_reply("An error occured creating the team");
    }
    let mut users = String::new();
    let mut i: usize = 0;
    while i < member_ids.len()
        invariant
            i <= member_ids@.len(),
            users@ == mentions(member_ids@.take(i as int)),
        decreases member_ids@.len() - i,
    {
        let ghost before = users@;
        users.append("<@");
        push_decimal(&mut users, member_ids[i]);
        users.append("> ");
        assert(member_ids@.take(i + 1).drop_last() =~= member_ids@.take(i as int));
        assert(users@ =~= mentions(member_ids@.take(i + 1)));
        i = i + 1;
    }
    assert(member_ids@.take(member_ids@.len() as int) =~= member_ids@);
    let mut t = String::from_str("Team ");
    t.append(team_name);
    t.append(" has been created with the members: ");
    t.append(users.as_str());
    Reply { text: t, ephemeral: false }
}

} // verus!
