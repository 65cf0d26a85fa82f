use vstd::prelude::*;
use vstd::string::*;

use crate::text::{decimal, push_decimal};
use crate::team_swapping::team_swap_utils::{
    Reply, ReplyView, answer_phase, current_phase, named_private_reply, phase_answer, private_reply, public_reply,
};

verus! {

/// A lookup of the smaller team-swap commands.
#[derive(PartialEq, Eq, Structural, Clone, Copy, Debug)]
pub enum TeamQuery {
    /// What is the phase of the event set to?
    Phase,
    /// Does the user have the swapper role?
    SwapperRole,
    /// Does the user have the host role?
    HostRole,
    /// Which team is the user in?
    UserTeam,
    /// Who submitted the anime of the given name?
    AnimeSubmitter,
}

/// A change to the team-swap records.
#[derive(PartialEq, Eq, Structural, Clone, Copy, Debug)]
pub enum TeamAction {
    /// Remove the submitted anime of the given name.
    DeleteAnime,
    /// Remove the user and their submissions from the event.
    DeleteUser,
    /// Remove the team.
    DeleteTeam(u64),
    /// Rename the team.
    UpdateTeamName(u64),
    /// Change the image of the team.
    UpdateTeamImage(u64),
    /// Set the current phase.
    SetPhase(u64),
}

/// What a smaller team-swap command does next.
pub enum TeamStep {
    Ask(TeamQuery),
    Reply(Reply),
    Act(TeamAction),
}

/// The abstract value of a step.
pub enum TeamStepView {
    Ask(TeamQuery),
    Reply(ReplyView),
    Act(TeamAction),
}

impl View for TeamStep {
    type V = TeamStepView;

    open spec fn view(&self) -> TeamStepView {
        match self {
            TeamStep::Ask(q) => TeamStepView::Ask(*q),
            TeamStep::Reply(r) => TeamStepView::Reply(r@),
            TeamStep::Act(a) => TeamStepView::Act(*a),
        }
    }
}

/// A reply only the user sees.
pub open spec fn private(text: Seq<char>) -> TeamStepView {
    TeamStepView::Reply(ReplyView { text, ephemeral: true })
}

/// A reply the whole channel sees.
pub open spec fn public(text: Seq<char>) -> TeamStepView {
    TeamStepView::Reply(ReplyView { text, ephemeral: false })
}

/// The phases in which a submission is removed: 1 and 2.
pub open spec fn remove_submission_phases() -> Seq<u64> {
    seq![1, 2]
}

/// The phases in which a user leaves the event: 1 and 2.
pub open spec fn leave_phases() -> Seq<u64> {
    seq![1, 2]
}

/// The phases in which a team is renamed: 2 and 3.
pub open spec fn edit_team_name_phases() -> Seq<u64> {
    seq![2, 3]
}

/// What the smaller team-swap commands learn; each command reads the part it asks for.
pub struct TeamFacts {
    pub user_id: u64,
    /// The name the user is shown by.
    pub user_name: String,
    /// The phase setting once read: the text the phase is set to, `None`
    /// when it is not set.
    pub phase: Option<Option<String>>,
    pub role: Option<Result<bool, ()>>,
    pub user_team: Option<Result<Option<u64>, ()>>,
    pub anime_submitter: Option<Result<u64, ()>>,
}

/// The phase check every phase-bound command starts with, for a command
/// allowed in the phases `allowed`.
pub open spec fn phase_gate(f: TeamFacts, allowed: Seq<u64>) -> Option<TeamStepView> {
    match phase_answer(f.phase, allowed) {
        None => Some(TeamStepView::Ask(TeamQuery::Phase)),
        Some(Err(_)) => Some(private("Error checking phases"@)),
        Some(Ok(false)) => Some(private("Command is not allowed in current phase"@)),
        Some(Ok(true)) => None,
    }
}

fn phase_gate_exec(f: &TeamFacts, allowed: &Vec<u64>) -> (r: Option<TeamStep>)
    ensures
        r is None <==> phase_gate(*f, allowed@) is None,
        r matches Some(s) ==> phase_gate(*f, allowed@) == Some(s@),
{
    match answer_phase(&f.phase, allowed) {
        None => Some(TeamStep::Ask(TeamQuery::Phase)),
        Some(Err(_)) => Some(TeamStep::Reply(private_reply("Error checking phases"))),
        Some(Ok(false)) => Some(TeamStep::Reply(private_reply("Command is not allowed in current phase"))),
        Some(Ok(true)) => None,
    }
}

/// The next step of removing a submission (phases 1 and 2).
pub open spec fn remove_submission_step(f: TeamFacts) -> TeamStepView {
    match phase_gate(f, remove_submission_phases()) {
        Some(s) => s,
        None => match f.role {
            None => TeamStepView::Ask(TeamQuery::SwapperRole),
            Some(Err(_)) => private("An error has occured checking roles"@),
            Some(Ok(false)) => private(f.user_name@ + " does not have the swapper role, and therefore cannot remove submissions"@),
            Some(Ok(true)) => match f.anime_submitter {
                None => TeamStepView::Ask(TeamQuery::AnimeSubmitter),
                Some(Err(_)) => private("Error trying to find the anime submitter"@),
                Some(Ok(id)) => if id != f.user_id {
                    private("You are trying to remove an anime you did not submit"@)
                } else {
                    TeamStepView::Act(TeamAction::DeleteAnime)
                },
            },
        },
    }
}

/// The next step of removing a submission. Only the swapper who submitted an
/// anime removes it, and only in phases 1 and 2.
pub fn remove_submission_next(f: &TeamFacts) -> (r: TeamStep)
    ensures
        r@ == remove_submission_step(*f),
        r is Act ==> (f.phase matches Some(setting) && (current_phase(setting) matches Some(p) && (p == 1 || p == 2)))
            && f.role == Some(Ok::<bool, ()>(true))
            && f.anime_submitter == Some(Ok::<u64, ()>(f.user_id)),
{
    let allowed: Vec<u64> = vec![1, 2];
    assert(allowed@ =~= remove_submission_phases());
    match phase_gate_exec(f, &allowed) {
        Some(s) => return s,
        None => {},
    }
    match f.role {
        None => TeamStep::Ask(TeamQuery::SwapperRole),
        Some(Err(_)) => TeamStep::Reply(private_reply("An error has occured checking roles")),
        Some(Ok(false)) => TeamStep::Reply(named_private_reply(&f.user_name, " does not have the swapper role, and therefore cannot remove submissions")),
        Some(Ok(true)) => match f.anime_submitter {
            None => TeamStep::Ask(TeamQuery::AnimeSubmitter),
            Some(Err(_)) => TeamStep::Reply(private_reply("Error trying to find the anime submitter")),
            Some(Ok(id)) => if id != f.user_id {
                TeamStep::Reply(private_reply("You are trying to remove an anime you did not submit"))
            } else {
                TeamStep::Act(TeamAction::DeleteAnime)
            },
        },
    }
}

/// The next step of leaving the event (phases 1 and 2).
pub open spec fn leave_step(f: TeamFacts) -> TeamStepView {
    match phase_gate(f, leave_phases()) {
        Some(s) => s,
        None => match f.user_team {
            None => TeamStepView::Ask(TeamQuery::UserTeam),
            Some(Err(_)) => private("An error has occured checking if the user is already in a team"@),
            Some(Ok(Some(_))) => private("If you want to leave the event, first leave your team"@),
            Some(Ok(None)) => TeamStepView::Act(TeamAction::DeleteUser),
        },
    }
}

/// The next step of leaving the event: only a user in no team leaves, and only
/// in phases 1 and 2.
pub fn leave_next(f: &TeamFacts) -> (r: TeamStep)
    ensures
        r@ == leave_step(*f),
        r is Act ==> (f.phase matches Some(setting) && (current_phase(setting) matches Some(p) && (p == 1 || p == 2)))
            && f.user_team == Some(Ok::<Option<u64>, ()>(None)),
{
    let allowed: Vec<u64> = vec![1, 2];
    assert(allowed@ =~= leave_phases());
    match phase_gate_exec(f, &allowed) {
        Some(s) => return s,
        None => {},
    }
    match f.user_team {
        None => TeamStep::Ask(TeamQuery::UserTeam),
        Some(Err(_)) => TeamStep::Reply(private_reply("An error has occured checking if the user is already in a team")),
        Some(Ok(Some(_))) => TeamStep::Reply(private_reply("If you want to leave the event, first leave your team")),
        Some(Ok(None)) => TeamStep::Act(TeamAction::DeleteUser),
    }
}

/// The next step of deleting one's team (in any phase).
pub open spec fn delete_team_step(f: TeamFacts) -> TeamStepView {
    match f.user_team {
        None => TeamStepView::Ask(TeamQuery::UserTeam),
        Some(Err(_)) => private("Error checking if you are in a team"@),
        Some(Ok(None)) => private("You are not in a team and thus cannot delete it"@),
        Some(Ok(Some(t))) => TeamStepView::Act(TeamAction::DeleteTeam(t)),
    }
}

/// The next step of deleting one's team: the team deleted is the user's own.
pub fn delete_team_next(f: &TeamFacts) -> (r: TeamStep)
    ensures
        r@ == delete_team_step(*f),
{
    match f.user_team {
        None => TeamStep::Ask(TeamQuery::UserTeam),
        Some(Err(_)) => TeamStep::Reply(private_reply("Error checking if you are in a team")),
        Some(Ok(None)) => TeamStep::Reply(private_reply("You are not in a team and thus cannot delete it")),
        Some(Ok(Some(t))) => TeamStep::Act(TeamAction::DeleteTeam(t)),
    }
}

/// The next step of renaming one's team (phases 2 and 3).
pub open spec fn edit_team_name_step(f: TeamFacts) -> TeamStepView {
    match phase_gate(f, edit_team_name_phases()) {
        Some(s) => s,
        None => match f.user_team {
            None => TeamStepView::Ask(TeamQuery::UserTeam),
            Some(Err(_)) => private("Error checking if you are in a team"@),
            Some(Ok(None)) => private("You are not in a team and thus cannot edit it"@),
            Some(Ok(Some(t))) => TeamStepView::Act(TeamAction::UpdateTeamName(t)),
        },
    }
}

/// The next step of renaming one's team: the team renamed is the user's own.
pub fn edit_team_name_next(f: &TeamFacts) -> (r: TeamStep)
    ensures
        r@ == edit_team_name_step(*f),
        r is Act ==> (f.phase matches Some(setting) && (current_phase(setting) matches Some(p) && (p == 2 || p == 3))),
{
    let allowed: Vec<u64> = vec![2, 3];
    assert(allowed@ =~= edit_team_name_phases());
    match phase_gate_exec(f, &allowed) {
        Some(s) => return s,
        None => {},
    }
    match f.user_team {
        None => TeamStep::Ask(TeamQuery::UserTeam),
        Some(Err(_)) => TeamStep::Reply(private_reply("Error checking if you are in a team")),
        Some(Ok(None)) => TeamStep::Reply(private_reply("You are not in a team and thus cannot edit it")),
        Some(Ok(Some(t))) => TeamStep::Act(TeamAction::UpdateTeamName(t)),
    }
}

/// The next step of changing one's team image (in any phase; replies are public).
pub open spec fn edit_team_image_step(f: TeamFacts) -> TeamStepView {
    match f.user_team {
        None => TeamStepView::Ask(TeamQuery::UserTeam),
        Some(Err(_)) => public("Error checking if you are in a team"@),
        Some(Ok(None)) => public("You are not in a team and thus cannot delete it"@),
        Some(Ok(Some(t))) => TeamStepView::Act(TeamAction::UpdateTeamImage(t)),
    }
}

/// The next step of changing one's team image: the image changed is the user's team's.
pub fn edit_team_image_next(f: &TeamFacts) -> (r: TeamStep)
    ensures
        r@ == edit_team_image_step(*f),
{
    match f.user_team {
        None => TeamStep::Ask(TeamQuery::UserTeam),
        Some(Err(_)) => TeamStep::Reply(public_reply("Error checking if you are in a team")),
        Some(Ok(None)) => TeamStep::Reply(public_reply("You are not in a team and thus cannot delete it")),
        Some(Ok(Some(t))) => TeamStep::Act(TeamAction::UpdateTeamImage(t)),
    }
}

/// The highest phase of the event.
pub open spec fn last_phase() -> u64 {
    3
}

/// The next step of setting the phase: hosts only, phases 0 to 3.
pub open spec fn set_phase_step(f: TeamFacts, phase: u64) -> TeamStepView {
    match f.role {
        None => TeamStepView::Ask(TeamQuery::HostRole),
        Some(Err(_)) => private("An error has occured checking roles"@),
        Some(Ok(false)) => private(f.user_name@ + " does not have the host role, and therefore you can't set the phase"@),
        Some(Ok(true)) => if phase > last_phase() {
            private("trying to set invalid phase"@)
        } else {
            TeamStepView::Act(TeamAction::SetPhase(phase))
        },
    }
}

/// Law: a host may set the event to any of its phases, 0 to 3, and only a
/// host may set it, only to one of those phases, and only to the phase asked.
pub proof fn lemma_host_sets_any_phase(f: TeamFacts, phase: u64)
    ensures
        f.role == Some(Ok::<bool, ()>(true)) && phase <= 3 ==> set_phase_step(f, phase) == TeamStepView::Act(TeamAction::SetPhase(phase)),
        set_phase_step(f, phase) matches TeamStepView::Act(a) ==> f.role == Some(Ok::<bool, ()>(true)) && phase <= 3
            && a == TeamAction::SetPhase(phase),
{
}

/// The next step of setting the phase. The phase is set only by a host, and
/// only to a phase of the event.
pub fn set_phase_next(f: &TeamFacts, phase: u64) -> (r: TeamStep)
    ensures
        r@ == set_phase_step(*f, phase),
        r is Act ==> f.role == Some(Ok::<bool, ()>(true)) && phase <= last_phase(),
        f.role == Some(Ok::<bool, ()>(true)) && phase <= 3 ==> (r matches TeamStep::Act(TeamAction::SetPhase(p)) && p == phase),
{
    match f.role {
        None => TeamStep::Ask(TeamQuery::HostRole),
        Some(Err(_)) => TeamStep::Reply(private_reply("An error has occured checking roles")),
        Some(Ok(false)) => TeamStep::Reply(named_private_reply(&f.user_name, " does not have the host role, and therefore you can't set the phase")),
        Some(Ok(true)) => if phase > 3 {
            TeamStep::Reply(private_reply("trying to set invalid phase"))
        } else {
            TeamStep::Act(TeamAction::SetPhase(phase))
        },
    }
}

/// The reply once an action was carried out (`done`) or failed.
pub open spec fn action_reply(a: TeamAction, done: bool) -> ReplyView {
    match a {
        TeamAction::DeleteAnime => if done {
            ReplyView { text: "Anime removed successfully"@, ephemeral: true }
        } else {
            ReplyView { text: "Error trying to remove anime"@, ephemeral: true }
        },
        TeamAction::DeleteUser => if done {
            ReplyView { text: "You have now left the event, and all your anime are removed"@, ephemeral: true }
        } else {
            ReplyView { text: "Error removing you from the event"@, ephemeral: true }
        },
        TeamAction::DeleteTeam(_) => if done {
            ReplyView { text: "Team has been deleted"@, ephemeral: true }
        } else {
            ReplyView { text: "Error deleting the team"@, ephemeral: true }
        },
        TeamAction::UpdateTeamName(_) => if done {
            ReplyView { text: "Updated team name"@, ephemeral: true }
        } else {
            ReplyView { text: "Error updating team names"@, ephemeral: true }
        },
        TeamAction::UpdateTeamImage(_) => if done {
            ReplyView { text: "Updated team image"@, ephemeral: false }
        } else {
            ReplyView { text: "Error updating team image"@, ephemeral: false }
        },
        TeamAction::SetPhase(p) => ReplyView { text: "Set phase to: "@ + decimal(p as nat), ephemeral: true },
    }
}

/// The reply to an action once it was carried out (`done`) or failed.
pub fn team_action_reply(a: TeamAction, done: bool) -> (r: Reply)
    ensures
        r@ == action_reply(a, done),
{
    match a {
        TeamAction::DeleteAnime => if done {
            private_reply("Anime removed successfully")
        } else {
            private_reply("Error trying to remove anime")
        },
        TeamAction::DeleteUser => if done {
            private_reply("You have now left the event, and all your anime are removed")
        } else {
            private_reply("Error removing you from the event")
        },
        TeamAction::DeleteTeam(_) => if done {
            private_reply("Team has been deleted")
        } else {
            private_reply("Error deleting the team")
        },
        TeamAction::UpdateTeamName(_) => if done {
            private_reply("Updated team name")
        } else {
            private_reply("Error updating team names")
        },
        TeamAction::UpdateTeamImage(_) => if done {
            public_reply("Updated team image")
        } else {
            public_reply("Error updating team image")
        },
        TeamAction::SetPhase(p) => {
            let mut t = String::from_str("Set phase to: ");
            push_decimal(&mut t, p);
            Reply { text: t, ephemeral: true }
        },
    }
}

/// The answer to deleting every team: whether the deletion went through.
pub fn delete_teams_reply(deleted: bool) -> (r: String)
    ensures
        deleted ==> r@ == "Teams were deleted succesfully"@,
        !deleted ==> r@ == "An error occured deliting the teams"@,
{
    if deleted {
        String::from_str("Teams were deleted succesfully")
    } else {
        String::from_str("An error occured deliting the teams")
    }
}

} // verus!
