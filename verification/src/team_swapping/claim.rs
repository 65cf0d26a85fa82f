use vstd::prelude::*;
use vstd::string::*;

use crate::team_swapping::team_swap_utils::{
    Reply, ReplyView, answer_phase, contains_u64, current_phase, named_private_reply, phase_answer,
    private_reply,
};

verus! {

/// The lookups the claim command makes, in the order it makes them.
#[derive(PartialEq, Eq, Structural, Clone, Copy, Debug)]
pub enum ClaimQuery {
    /// What is the phase of the event set to? (Anime are claimed in phase 3.)
    Phase,
    /// Does the user have the swapper role?
    SwapperRole,
    /// Which team is the user in?
    UserTeam,
    /// Which anime (id, submitter) has the given name?
    AnimeByName,
    /// Is that anime claimed already?
    AnimeClaimed,
    /// Who is in the user's team?
    TeamMembers,
    /// How many anime has the user claimed?
    ClaimedByUser,
    /// How many claims are allowed?
    MaxClaims,
    /// Which team does the member record of the user name?
    MemberTeam,
}

/// What the claim command has learnt so far; `None` for what it has not asked
/// yet, `Err` for a lookup that failed.
pub struct ClaimFacts {
    pub user_id: u64,
    /// The name the user is shown by.
    pub user_name: String,
    /// The phase setting once read: the text the phase is set to, `None`
    /// when it is not set.
    pub phase: Option<Option<String>>,
    pub swapper_role: Option<Result<bool, ()>>,
    pub user_team: Option<Result<Option<u64>, ()>>,
    /// The anime id and the id of the member who submitted it.
    pub anime: Option<Result<Option<(u64, u64)>, ()>>,
    pub already_claimed: Option<Result<bool, ()>>,
    pub team_member_ids: Option<Result<Vec<u64>, ()>>,
    pub claimed_count: Option<Result<u64, ()>>,
    pub max_claims: Option<u64>,
    pub member_team: Option<u64>,
}

/// What the claim command does next.
pub enum ClaimStep {
    Ask(ClaimQuery),
    Reply(Reply),
    CreateClaim { anime_id: u64, team_id: u64, user_id: u64 },
}

/// The abstract value of a step.
pub enum ClaimStepView {
    Ask(ClaimQuery),
    Reply(ReplyView),
    CreateClaim { anime_id: u64, team_id: u64, user_id: u64 },
}

impl View for ClaimStep {
    type V = ClaimStepView;

    open spec fn view(&self) -> ClaimStepView {
        match self {
            ClaimStep::Ask(q) => ClaimStepView::Ask(*q),
            ClaimStep::Reply(r) => ClaimStepView::Reply(r@),
            ClaimStep::CreateClaim { anime_id, team_id, user_id } => ClaimStepView::CreateClaim {
                anime_id: *anime_id,
                team_id: *team_id,
                user_id: *user_id,
            },
        }
    }
}

/// The phases in which anime are claimed: the claiming phase, 3.
pub open spec fn claim_phases() -> Seq<u64> {
    seq![3]
}

/// A reply only the user sees.
pub open spec fn private(text: Seq<char>) -> ClaimStepView {
    ClaimStepView::Reply(ReplyView { text, ephemeral: true })
}

/// The next step of the claim command: ask what it does not know yet, stop at
/// the first check that fails, and claim once every check passed.
pub open spec fn claim_step(f: ClaimFacts) -> ClaimStepView {
    match phase_answer(f.phase, claim_phases()) {
        None => ClaimStepView::Ask(ClaimQuery::Phase),
        Some(Err(_)) => private("Error checking phases"@),
        Some(Ok(false)) => private("Command is not allowed in current phase"@),
        Some(Ok(true)) => match f.swapper_role {
            None => ClaimStepView::Ask(ClaimQuery::SwapperRole),
            Some(Err(_)) => private("An error has occured checking roles"@),
            Some(Ok(false)) => private(f.user_name@ + " does not have the swapper role, and therefore cannot claim an anime"@),
            Some(Ok(true)) => match f.user_team {
                None => ClaimStepView::Ask(ClaimQuery::UserTeam),
                Some(Err(_)) => private("An error has occured checking if the user is already in a team"@),
                Some(Ok(None)) => private("You are not in a team and thus cannot claim an anime"@),
                Some(Ok(Some(_))) => match f.anime {
                    None => ClaimStepView::Ask(ClaimQuery::AnimeByName),
                    Some(Err(_)) => private("Error checking fetching the anime id"@),
                    Some(Ok(None)) => private("This anime was not submitted and thus cannot be claimed"@),
                    Some(Ok(Some((anime_id, submitter_id)))) => match f.already_claimed {
                        None => ClaimStepView::Ask(ClaimQuery::AnimeClaimed),
                        Some(Err(_)) => private("An error has occured checking if the anime has been claimed"@),
                        Some(Ok(true)) => private("This anime has already been claimed, please pick another one"@),
                        Some(Ok(false)) => match f.team_member_ids {
                            None => ClaimStepView::Ask(ClaimQuery::TeamMembers),
                            Some(Err(_)) => private("An error has occured checking team members"@),
                            Some(Ok(ids)) => if ids@.contains(submitter_id) {
                                private("Someone on your team submitted this anime, thus you cannot claim it"@)
                            } else {
                                match f.claimed_count {
                                    None => ClaimStepView::Ask(ClaimQuery::ClaimedByUser),
                                    Some(Err(_)) => private("An error has occured checking the claimed anime"@),
                                    Some(Ok(count)) => match f.max_claims {
                                        None => ClaimStepView::Ask(ClaimQuery::MaxClaims),
                                        Some(max) => if count >= max {
                                            private("You currently can't claim any more anime, wait until the maximun is raised"@)
                                        } else {
                                            match f.member_team {
                                                None => ClaimStepView::Ask(ClaimQuery::MemberTeam),
                                                Some(team_id) => ClaimStepView::CreateClaim {
                                                    anime_id,
                                                    team_id,
                                                    user_id: f.user_id,
                                                },
                                            }
                                        },
                                    },
                                }
                            },
                        },
                    },
                },
            },
        },
    }
}

/// Every rule of claiming holds: the claiming phase, the swapper role, a team,
/// a submitted anime that is not claimed yet and that nobody of the team
/// submitted, and a claim count below the maximum.
pub open spec fn claim_allowed(f: ClaimFacts, anime_id: u64, team_id: u64) -> bool {
    &&& (f.phase matches Some(setting) && current_phase(setting) == Some(3u64))
    &&& f.swapper_role == Some(Ok::<bool, ()>(true))
    &&& f.user_team matches Some(Ok(Some(_)))
    &&& (f.anime matches Some(Ok(Some((a, m)))) && a == anime_id
        && (f.team_member_ids matches Some(Ok(ids)) && !ids@.contains(m)))
    &&& f.already_claimed == Some(Ok::<bool, ()>(false))
    &&& (f.claimed_count matches Some(Ok(c)) && (f.max_claims matches Some(max) && c < max))
    &&& f.member_team == Some(team_id)
}

/// The next step of the claim command for what it has learnt so far. A claim
/// is made only when every rule of claiming holds.
pub fn claim_next(facts: &ClaimFacts) -> (r: ClaimStep)
    ensures
        r@ == claim_step(*facts),
        r matches ClaimStep::CreateClaim { anime_id, team_id, user_id } ==>
            claim_allowed(*facts, anime_id, team_id) && user_id == facts.user_id,
{
    let allowed: Vec<u64> = vec![3];
    assert(allowed@ =~= claim_phases());
    match answer_phase(&facts.phase, &allowed) {
        None => return ClaimStep::Ask(ClaimQuery::Phase),
        Some(Err(_)) => return ClaimStep::Reply(private_reply("Error checking phases")),
        Some(Ok(false)) => return ClaimStep::Reply(private_reply("Command is not allowed in current phase")),
        Some(Ok(true)) => {},
    }
    match facts.swapper_role {
        None => return ClaimStep::Ask(ClaimQuery::SwapperRole),
        Some(Err(_)) => return ClaimStep::Reply(private_reply("An error has occured checking roles")),
        Some(Ok(false)) => return ClaimStep::Reply(named_private_reply(&facts.user_name, " does not have the swapper role, and therefore cannot claim an anime")),
        Some(Ok(true)) => {},
    }
    match facts.user_team {
        None => return ClaimStep::Ask(ClaimQuery::UserTeam),
        Some(Err(_)) => return ClaimStep::Reply(private_reply("An error has occured checking if the user is already in a team")),
        Some(Ok(None)) => return ClaimStep::Reply(private_reply("You are not in a team and thus cannot claim an anime")),
        Some(Ok(Some(_))) => {},
    }
    let (anime_id, submitter_id) = match facts.anime {
        None => return ClaimStep::Ask(ClaimQuery::AnimeByName),
        Some(Err(_)) => return ClaimStep::Reply(private_reply("Error checking fetching the anime id")),
        Some(Ok(None)) => return ClaimStep::Reply(private_reply("This anime was not submitted and thus cannot be claimed")),
        Some(Ok(Some(pair))) => pair,
    };
    match facts.already_claimed {
        None => return ClaimStep::Ask(ClaimQuery::AnimeClaimed),
        Some(Err(_)) => return ClaimStep::Reply(private_reply("An error has occured checking if the anime has been claimed")),
        Some(Ok(true)) => return ClaimStep::Reply(private_reply("This anime has already been claimed, please pick another one")),
        Some(Ok(false)) => {},
    }
    match &facts.team_member_ids {
        None => return ClaimStep::Ask(ClaimQuery::TeamMembers),
        Some(Err(_)) => return ClaimStep::Reply(private_reply("An error has occured checking team members")),
        Some(Ok(ids)) => {
            if contains_u64(ids, submitter_id) {
                return ClaimStep::Reply(private_reply("Someone on your team submitted this anime, thus you cannot claim it"));
            }
        },
    }
    let count = match facts.claimed_count {
        None => return ClaimStep::Ask(ClaimQuery::ClaimedByUser),
        Some(Err(_)) => return ClaimStep::Reply(private_reply("An error has occured checking the claimed anime")),
        Some(Ok(c)) => c,
    };
    let max = match facts.max_claims {
        None => return ClaimStep::Ask(ClaimQuery::MaxClaims),
        Some(m) => m,
    };
    if count >= max {
        return ClaimStep::Reply(private_reply("You currently can't claim any more anime, wait until the maximun is raised"));
    }
    match facts.member_team {
        None => ClaimStep::Ask(ClaimQuery::MemberTeam),
        Some(team_id) => ClaimStep::CreateClaim { anime_id, team_id, user_id: facts.user_id },
    }
}

/// The reply once the claim was stored (`created`) or storing it failed.
pub fn claim_result_reply(anime_name: &str, created: bool) -> (r: Reply)
    ensures
        created ==> r@ == (ReplyView { text: "You claimed "@ + anime_name@, ephemeral: true }),
        !created ==> r@ == (ReplyView { text: "Error claiming anime"@, ephemeral: true }),
{
    if created {
        let mut t = String::from_str("You claimed ");
        t.append(anime_name);
        Reply { text: t, ephemeral: true }
    } else {
        private_reply("Error claiming anime")
    }
}

} // verus!
