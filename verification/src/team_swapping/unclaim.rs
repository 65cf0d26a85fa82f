use vstd::prelude::*;
use vstd::string::*;

use crate::team_swapping::team_swap_utils::{
    Reply, ReplyView, answer_phase, current_phase, named_private_reply, phase_answer, private_reply,
};

verus! {

/// The instant an RFC 3339 date-and-time denotes, as chrono's
/// `DateTime::parse_from_rfc3339` reads it: whole seconds since the Unix epoch
/// (UTC) and the nanoseconds past them; `None` when chrono refuses the text.
pub uninterp spec fn rfc3339_instant(s: Seq<char>) -> Option<(i64, u32)>;

/// Reads an RFC 3339 date-and-time with `chrono::DateTime::parse_from_rfc3339`
/// and gives its `timestamp()` and `timestamp_subsec_nanos()`. The contract
/// names the result as a function of the text.
#[verifier::external_body]
fn parse_rfc3339(s: &str) -> (r: Option<(i64, u32)>)
    ensures
        r == rfc3339_instant(s@),
{
    match chrono::DateTime::parse_from_rfc3339(s) {
        Ok(t) => Some((t.timestamp(), t.timestamp_subsec_nanos())),
        Err(_) => None,
    }
}

/// An instant in nanoseconds since the Unix epoch.
pub open spec fn instant_nanos(t: (i64, u32)) -> int {
    t.0 * 1_000_000_000 + t.1
}

/// How long after claiming an anime a team may still give it back: 12 hours.
pub open spec fn unclaim_window_nanos() -> int {
    43_200_000_000_000int
}

/// Whether less than 12 hours passed from `claimed` to `now`.
pub fn within_unclaim_window(now: (i64, u32), claimed: (i64, u32)) -> (r: bool)
    ensures
        r == (instant_nanos(now) - instant_nanos(claimed) < unclaim_window_nanos()),
{
    let a: i128 = now.0 as i128 * 1_000_000_000i128 + now.1 as i128;
    let b: i128 = claimed.0 as i128 * 1_000_000_000i128 + claimed.1 as i128;
    a - b < 43_200_000_000_000i128
}

/// The lookups the unclaim command makes, in order.
#[derive(PartialEq, Eq, Structural, Clone, Copy, Debug)]
pub enum UnclaimQuery {
    /// What is the phase of the event set to? (Claims are given back in phase 3.)
    Phase,
    /// Does the user have the swapper role?
    SwapperRole,
    /// Which team is the user in?
    UserTeam,
    /// Which anime (id, submitter) has the given name?
    AnimeByName,
    /// Which team claimed the anime, and when (RFC 3339)?
    ClaimInfo,
    /// What time is it now?
    Now,
}

/// What the unclaim command has learnt so far.
pub struct UnclaimFacts {
    pub user_name: String,
    /// The phase setting once read: the text the phase is set to, `None`
    /// when it is not set.
    pub phase: Option<Option<String>>,
    pub swapper_role: Option<Result<bool, ()>>,
    pub user_team: Option<Result<Option<u64>, ()>>,
    pub anime: Option<Result<Option<(u64, u64)>, ()>>,
    /// The claiming team and the time of the claim.
    pub claim_info: Option<Result<(u64, String), ()>>,
    /// The current time: seconds since the Unix epoch and nanoseconds past them.
    pub now: Option<(i64, u32)>,
}

/// What the unclaim command does next.
pub enum UnclaimStep {
    Ask(UnclaimQuery),
    Reply(Reply),
    DeleteClaim { anime_id: u64 },
}

/// The abstract value of a step.
pub enum UnclaimStepView {
    Ask(UnclaimQuery),
    Reply(ReplyView),
    DeleteClaim { anime_id: u64 },
}

impl View for UnclaimStep {
    type V = UnclaimStepView;

    open spec fn view(&self) -> UnclaimStepView {
        match self {
            UnclaimStep::Ask(q) => UnclaimStepView::Ask(*q),
            UnclaimStep::Reply(r) => UnclaimStepView::Reply(r@),
            UnclaimStep::DeleteClaim { anime_id } => UnclaimStepView::DeleteClaim { anime_id: *anime_id },
        }
    }
}

/// The phases in which claims are given back: the claiming phase, 3.
pub open spec fn unclaim_phases() -> Seq<u64> {
    seq![3]
}

/// A reply only the user sees.
pub open spec fn private(text: Seq<char>) -> UnclaimStepView {
    UnclaimStepView::Reply(ReplyView { text, ephemeral: true })
}

/// The next step of the unclaim command.
pub open spec fn unclaim_step(f: UnclaimFacts) -> UnclaimStepView {
    match phase_answer(f.phase, unclaim_phases()) {
        None => UnclaimStepView::Ask(UnclaimQuery::Phase),
        Some(Err(_)) => private("Error checking phases"@),
        Some(Ok(false)) => private("Command is not allowed in current phase"@),
        Some(Ok(true)) => match f.swapper_role {
            None => UnclaimStepView::Ask(UnclaimQuery::SwapperRole),
            Some(Err(_)) => private("An error has occured checking roles"@),
            Some(Ok(false)) => private(f.user_name@ + " does not have the swapper role, and therefore cannot remove submissions"@),
            Some(Ok(true)) => match f.user_team {
                None => UnclaimStepView::Ask(UnclaimQuery::UserTeam),
                Some(Err(_)) => private("An error has occured checking if the user is already in a team"@),
                Some(Ok(None)) => private("You are not in a team and thus cannot claim an anime"@),
                Some(Ok(Some(team))) => match f.anime {
                    None => UnclaimStepView::Ask(UnclaimQuery::AnimeByName),
                    Some(Err(_)) => private("Error checking fetching the anime id"@),
                    Some(Ok(None)) => private("This anime was not submitted and thus cannot be claimed"@),
                    Some(Ok(Some((anime_id, _)))) => match f.claim_info {
                        None => UnclaimStepView::Ask(UnclaimQuery::ClaimInfo),
                        Some(Err(_)) => private("Error checking fetching the anime info"@),
                        Some(Ok((claiming_team, time))) => if claiming_team != team {
                            private("You are trying to unclaim an anime not claimed by your team"@)
                        } else {
                            match f.now {
                                None => UnclaimStepView::Ask(UnclaimQuery::Now),
                                Some(now) => match rfc3339_instant(time@) {
                                    None => private("Error with parsing time"@),
                                    Some(claimed) => if instant_nanos(now) - instant_nanos(claimed) < unclaim_window_nanos() {
                                        UnclaimStepView::DeleteClaim { anime_id }
                                    } else {
                                        private("It's been more than 12 hours, so this anime cannot be unclaimed"@)
                                    },
                                },
                            }
                        },
                    },
                },
            },
        },
    }
}

/// Every rule of unclaiming holds: claiming phase, swapper role, the anime was
/// claimed by the user's own team, and less than 12 hours ago.
pub open spec fn unclaim_allowed(f: UnclaimFacts, anime_id: u64) -> bool {
    &&& (f.phase matches Some(setting) && current_phase(setting) == Some(3u64))
    &&& f.swapper_role == Some(Ok::<bool, ()>(true))
    &&& (f.user_team matches Some(Ok(Some(team)))
        && (f.claim_info matches Some(Ok((t, time))) && t == team
            && (f.now matches Some(now) && (rfc3339_instant(time@) matches Some(claimed)
                && instant_nanos(now) - instant_nanos(claimed) < unclaim_window_nanos()))))
    &&& (f.anime matches Some(Ok(Some((a, _)))) && a == anime_id)
}

/// The next step of the unclaim command for what it has learnt so far. A claim
/// is given back only when every rule of unclaiming holds.
pub fn unclaim_next(facts: &UnclaimFacts) -> (r: UnclaimStep)
    ensures
        r@ == unclaim_step(*facts),
        r matches UnclaimStep::DeleteClaim { anime_id } ==> unclaim_allowed(*facts, anime_id),
{
    let allowed: Vec<u64> = vec![3];
    assert(allowed@ =~= unclaim_phases());
    match answer_phase(&facts.phase, &allowed) {
        None => return UnclaimStep::Ask(UnclaimQuery::Phase),
        Some(Err(_)) => return UnclaimStep::Reply(private_reply("Error checking phases")),
        Some(Ok(false)) => return UnclaimStep::Reply(private_reply("Command is not allowed in current phase")),
        Some(Ok(true)) => {},
    }
    match facts.swapper_role {
        None => return UnclaimStep::Ask(UnclaimQuery::SwapperRole),
        Some(Err(_)) => return UnclaimStep::Reply(private_reply("An error has occured checking roles")),
        Some(Ok(false)) => return UnclaimStep::Reply(named_private_reply(&facts.user_name, " does not have the swapper role, and therefore cannot remove submissions")),
        Some(Ok(true)) => {},
    }
    let team = match facts.user_team {
        None => return UnclaimStep::Ask(UnclaimQuery::UserTeam),
        Some(Err(_)) => return UnclaimStep::Reply(private_reply("An error has occured checking if the user is already in a team")),
        Some(Ok(None)) => return UnclaimStep::Reply(private_reply("You are not in a team and thus cannot claim an anime")),
        Some(Ok(Some(t))) => t,
    };
    let anime_id = match facts.anime {
        None => return UnclaimStep::Ask(UnclaimQuery::AnimeByName),
        Some(Err(_)) => return UnclaimStep::Reply(private_reply("Error checking fetching the anime id")),
        Some(Ok(None)) => return UnclaimStep::Reply(private_reply("This anime was not submitted and thus cannot be claimed")),
        Some(Ok(Some((a, _)))) => a,
    };
    match &facts.claim_info {
        None => UnclaimStep::Ask(UnclaimQuery::ClaimInfo),
        Some(Err(_)) => UnclaimStep::Reply(private_reply("Error checking fetching the anime info")),
        Some(Ok((claiming_team, time))) => {
            if *claiming_team != team {
                return UnclaimStep::Reply(private_reply("You are trying to unclaim an anime not claimed by your team"));
            }
            match facts.now {
                None => UnclaimStep::Ask(UnclaimQuery::Now),
                Some(now) => match parse_rfc3339(time.as_str()) {
                    None => UnclaimStep::Reply(private_reply("Error with parsing time")),
                    Some(claimed) => if within_unclaim_window(now, claimed) {
                        UnclaimStep::DeleteClaim { anime_id }
                    } else {
                        UnclaimStep::Reply(private_reply("It's been more than 12 hours, so this anime cannot be unclaimed"))
                    },
                },
            }
        },
    }
}

/// The reply once the claim was deleted (`deleted`) or deleting it failed.
pub fn unclaim_result_reply(deleted: bool) -> (r: Reply)
    ensures
        deleted ==> r@ == (ReplyView { text: "Successfully unclaimed anime"@, ephemeral: true }),
        !deleted ==> r@ == (ReplyView { text: "Error unclaming anime"@, ephemeral: true }),
{
    if deleted {
        private_reply("Successfully unclaimed anime")
    } else {
        private_reply("Error unclaming anime")
    }
}

} // verus!
