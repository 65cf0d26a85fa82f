use anime_bot::team_swapping::claim::{claim_next, claim_result_reply, ClaimFacts, ClaimQuery, ClaimStep};
use anime_bot::team_swapping::create_team::{
    create_team_next, create_team_result_reply, CreateTeamFacts, CreateTeamQuery, CreateTeamStep, MemberFacts,
};
use anime_bot::team_swapping::membership::{
    delete_team_next, delete_teams_reply, edit_team_image_next, edit_team_name_next, leave_next,
    remove_submission_next, set_phase_next, team_action_reply, TeamAction, TeamFacts, TeamQuery, TeamStep,
};
use anime_bot::team_swapping::status::{
    status_next, status_report_from, status_sent_reply, StatusFacts, StatusQuery, StatusStep, SubmissionCount,
    TeamSummary,
};
use anime_bot::team_swapping::submit_anime::{
    parse_anilist_link, submit_anime_next, submitted_reply, AnilistLink, SubmitFacts, SubmitQuery, SubmitStep,
};
use anime_bot::team_swapping::team_swap_utils::{
    check_if_team_exists, check_phase, contains_u64, parse_u64, private_reply, public_reply, PhaseError, Reply,
};
use anime_bot::team_swapping::unclaim::{
    unclaim_next, unclaim_result_reply, within_unclaim_window, UnclaimFacts, UnclaimQuery, UnclaimStep,
};

fn s(x: &str) -> String {
    x.to_string()
}

fn assert_reply(r: &Reply, text: &str, ephemeral: bool) {
    assert_eq!(r.text, text);
    assert_eq!(r.ephemeral, ephemeral);
}

#[test]
fn parse_u64_cases() {
    assert_eq!(parse_u64("42"), Some(42));
    assert_eq!(parse_u64("0"), Some(0));
    assert_eq!(parse_u64("+7"), Some(7));
    assert_eq!(parse_u64("007"), Some(7));
    assert_eq!(parse_u64("18446744073709551615"), Some(u64::MAX));
    assert_eq!(parse_u64("18446744073709551616"), None);
    assert_eq!(parse_u64(""), None);
    assert_eq!(parse_u64("+"), None);
    assert_eq!(parse_u64("-1"), None);
    assert_eq!(parse_u64("12a"), None);
    assert_eq!(parse_u64(" 1"), None);
    assert_eq!(parse_u64("١"), None);
}

#[test]
fn parse_u64_agrees_with_std() {
    for t in ["1", "+12", "99999999999999999999", "", "x", "3 ", "0000", "18446744073709551615"] {
        assert_eq!(parse_u64(t), t.parse::<u64>().ok(), "{}", t);
    }
}

#[test]
fn decimal_round_trip_sample() {
    for n in [0u64, 9, 10, 12345, u64::MAX] {
        assert_eq!(parse_u64(&anime_bot::text::u64_to_string(n)), Some(n));
    }
}

#[test]
fn check_phase_cases() {
    let allowed = vec![1, 2];
    assert_eq!(check_phase(&allowed, Some("2")), Ok(true));
    assert_eq!(check_phase(&allowed, Some("3")), Ok(false));
    assert_eq!(check_phase(&allowed, None), Err(PhaseError::Missing));
    assert_eq!(check_phase(&allowed, Some("two")), Err(PhaseError::Invalid));
    assert_eq!(check_phase(&Vec::new(), Some("1")), Ok(false));
}

#[test]
fn check_if_team_exists_cases() {
    assert_eq!(check_if_team_exists(Ok(true)), Ok(true));
    assert_eq!(check_if_team_exists(Ok(false)), Ok(false));
    assert_eq!(check_if_team_exists(Err(())), Err(s("An error has occured fetching from the database")));
}

#[test]
fn contains_u64_cases() {
    assert!(contains_u64(&vec![3, 5], 5));
    assert!(!contains_u64(&vec![3, 5], 4));
    assert!(!contains_u64(&Vec::new(), 0));
}

#[test]
fn replies() {
    assert_reply(&private_reply("hi"), "hi", true);
    assert_reply(&public_reply("hi"), "hi", false);
}

fn claim_facts() -> ClaimFacts {
    ClaimFacts {
        user_id: 7,
        user_name: s("mika"),
        phase: Some(Some(s("3"))),
        swapper_role: Some(Ok(true)),
        user_team: Some(Ok(Some(3))),
        anime: Some(Ok(Some((21, 99)))),
        already_claimed: Some(Ok(false)),
        team_member_ids: Some(Ok(vec![7, 8])),
        claimed_count: Some(Ok(1)),
        max_claims: Some(2),
        member_team: Some(3),
    }
}

#[test]
fn claim_asks_in_order() {
    let mut f = claim_facts();
    f.phase = None;
    assert!(matches!(claim_next(&f), ClaimStep::Ask(ClaimQuery::Phase)));
    let mut f = claim_facts();
    f.team_member_ids = None;
    assert!(matches!(claim_next(&f), ClaimStep::Ask(ClaimQuery::TeamMembers)));
    let mut f = claim_facts();
    f.max_claims = None;
    assert!(matches!(claim_next(&f), ClaimStep::Ask(ClaimQuery::MaxClaims)));
    let mut f = claim_facts();
    f.member_team = None;
    assert!(matches!(claim_next(&f), ClaimStep::Ask(ClaimQuery::MemberTeam)));
}

#[test]
fn claim_succeeds() {
    match claim_next(&claim_facts()) {
        ClaimStep::CreateClaim { anime_id, team_id, user_id } => {
            assert_eq!((anime_id, team_id, user_id), (21, 3, 7));
        },
        _ => panic!("every check passes"),
    }
}

#[test]
fn claim_refusals() {
    let mut f = claim_facts();
    f.phase = Some(Some(s("2")));
    match claim_next(&f) {
        ClaimStep::Reply(r) => assert_reply(&r, "Command is not allowed in current phase", true),
        _ => panic!(),
    }
    let mut f = claim_facts();
    f.swapper_role = Some(Ok(false));
    match claim_next(&f) {
        ClaimStep::Reply(r) => assert_reply(&r, "mika does not have the swapper role, and therefore cannot claim an anime", true),
        _ => panic!(),
    }
    let mut f = claim_facts();
    f.user_team = Some(Ok(None));
    match claim_next(&f) {
        ClaimStep::Reply(r) => assert_reply(&r, "You are not in a team and thus cannot claim an anime", true),
        _ => panic!(),
    }
    let mut f = claim_facts();
    f.anime = Some(Ok(None));
    match claim_next(&f) {
        ClaimStep::Reply(r) => assert_reply(&r, "This anime was not submitted and thus cannot be claimed", true),
        _ => panic!(),
    }
    let mut f = claim_facts();
    f.already_claimed = Some(Ok(true));
    match claim_next(&f) {
        ClaimStep::Reply(r) => assert_reply(&r, "This anime has already been claimed, please pick another one", true),
        _ => panic!(),
    }
    let mut f = claim_facts();
    f.team_member_ids = Some(Ok(vec![8, 99]));
    match claim_next(&f) {
        ClaimStep::Reply(r) => assert_reply(&r, "Someone on your team submitted this anime, thus you cannot claim it", true),
        _ => panic!(),
    }
    let mut f = claim_facts();
    f.claimed_count = Some(Ok(2));
    match claim_next(&f) {
        ClaimStep::Reply(r) => assert_reply(&r, "You currently can't claim any more anime, wait until the maximun is raised", true),
        _ => panic!(),
    }
    let mut f = claim_facts();
    f.claimed_count = Some(Err(()));
    match claim_next(&f) {
        ClaimStep::Reply(r) => assert_reply(&r, "An error has occured checking the claimed anime", true),
        _ => panic!(),
    }
}

#[test]
fn claim_result_replies() {
    assert_reply(&claim_result_reply("Naruto", true), "You claimed Naruto", true);
    assert_reply(&claim_result_reply("Naruto", false), "Error claiming anime", true);
}

fn member(id: u64, name: &str) -> MemberFacts {
    MemberFacts {
        id,
        global_name: format!("{} global", name),
        name: s(name),
        swapper_role: Some(Ok(true)),
        exists: Some(Ok(true)),
        in_team: Some(Ok(None)),
        submitted_count: Some(Ok(7)),
    }
}

fn team_facts() -> CreateTeamFacts {
    CreateTeamFacts {
        author_id: 1,
        team_name: s("Blue"),
        phase: Some(Some(s("2"))),
        members: vec![member(1, "ann"), member(2, "bob")],
        team_exists: Some(Ok(false)),
    }
}

#[test]
fn create_team_succeeds() {
    assert!(matches!(create_team_next(&team_facts()), CreateTeamStep::Create));
}

#[test]
fn create_team_checks_members_in_order() {
    let mut f = team_facts();
    f.members[1].swapper_role = None;
    assert!(matches!(create_team_next(&f), CreateTeamStep::Ask(CreateTeamQuery::SwapperRole(1))));
    let mut f = team_facts();
    f.members[0].in_team = None;
    f.members[1].exists = None;
    assert!(matches!(create_team_next(&f), CreateTeamStep::Ask(CreateTeamQuery::MemberInTeam(0))));
    let mut f = team_facts();
    f.team_exists = None;
    assert!(matches!(create_team_next(&f), CreateTeamStep::Ask(CreateTeamQuery::TeamExists)));
}

#[test]
fn create_team_refusals() {
    let mut f = team_facts();
    f.author_id = 2;
    match create_team_next(&f) {
        CreateTeamStep::Reply(r) => assert_reply(&r, "You should be the first member of your team", true),
        _ => panic!(),
    }
    let mut f = team_facts();
    f.members.clear();
    match create_team_next(&f) {
        CreateTeamStep::Reply(r) => assert_reply(&r, "You should be the first member of your team", true),
        _ => panic!(),
    }
    let mut f = team_facts();
    f.members[1].swapper_role = Some(Ok(false));
    match create_team_next(&f) {
        CreateTeamStep::Reply(r) => assert_reply(&r, "bob global does not have the swapper role, and therefore a team cannot be created", true),
        _ => panic!(),
    }
    let mut f = team_facts();
    f.members[1].exists = Some(Ok(false));
    match create_team_next(&f) {
        CreateTeamStep::Reply(r) => assert_reply(&r, "bob global has not joined yet", true),
        _ => panic!(),
    }
    let mut f = team_facts();
    f.members[1].in_team = Some(Ok(Some(4)));
    match create_team_next(&f) {
        CreateTeamStep::Reply(r) => assert_reply(&r, "bob is already in a team and thus cannot be added", true),
        _ => panic!(),
    }
    let mut f = team_facts();
    f.members[0].submitted_count = Some(Ok(6));
    match create_team_next(&f) {
        CreateTeamStep::Reply(r) => assert_reply(&r, "You should have at least submitted 7 anime before joining a team", true),
        _ => panic!(),
    }
    let mut f = team_facts();
    f.team_exists = Some(Ok(true));
    match create_team_next(&f) {
        CreateTeamStep::Reply(r) => assert_reply(&r, "A team with this name already exists, please pick another one", true),
        _ => panic!(),
    }
    let mut f = team_facts();
    f.phase = Some(Some(s("two")));
    match create_team_next(&f) {
        CreateTeamStep::Reply(r) => assert_reply(&r, "Error checking phases", true),
        _ => panic!(),
    }
}

#[test]
fn create_team_announcement() {
    assert_reply(
        &create_team_result_reply("Blue", &vec![1, 22], true),
        "Team Blue has been created with the members: <@1> <@22> ",
        false,
    );
    assert_reply(&create_team_result_reply("Blue", &vec![1], false), "An error occured creating the team", true);
}

#[test]
fn unclaim_window_edges() {
    assert!(within_unclaim_window((100, 0), (0, 0)));
    assert!(within_unclaim_window((43_199, 999_999_999), (0, 0)));
    assert!(!within_unclaim_window((43_200, 0), (0, 0)));
    assert!(within_unclaim_window((0, 0), (100, 0)));
    assert!(!within_unclaim_window((i64::MAX, 999_999_999), (i64::MIN, 0)));
}

fn unclaim_facts(now: (i64, u32), time: &str) -> UnclaimFacts {
    UnclaimFacts {
        user_name: s("mika"),
        phase: Some(Some(s("3"))),
        swapper_role: Some(Ok(true)),
        user_team: Some(Ok(Some(3))),
        anime: Some(Ok(Some((21, 99)))),
        claim_info: Some(Ok((3, s(time)))),
        now: Some(now),
    }
}

#[test]
fn unclaim_within_twelve_hours() {
    let claimed = 1_704_067_200i64;
    match unclaim_next(&unclaim_facts((claimed + 3600, 0), "2024-01-01T00:00:00Z")) {
        UnclaimStep::DeleteClaim { anime_id } => assert_eq!(anime_id, 21),
        _ => panic!("an hour after claiming"),
    }
    match unclaim_next(&unclaim_facts((claimed + 3600, 0), "2024-01-01T01:00:00+01:00")) {
        UnclaimStep::DeleteClaim { anime_id } => assert_eq!(anime_id, 21),
        _ => panic!("the same instant written in another zone"),
    }
}

#[test]
fn unclaim_refusals() {
    let claimed = 1_704_067_200i64;
    match unclaim_next(&unclaim_facts((claimed + 43_200, 0), "2024-01-01T00:00:00Z")) {
        UnclaimStep::Reply(r) => assert_reply(&r, "It's been more than 12 hours, so this anime cannot be unclaimed", true),
        _ => panic!(),
    }
    match unclaim_next(&unclaim_facts((claimed, 0), "yesterday")) {
        UnclaimStep::Reply(r) => assert_reply(&r, "Error with parsing time", true),
        _ => panic!(),
    }
    let mut f = unclaim_facts((claimed, 0), "2024-01-01T00:00:00Z");
    f.claim_info = Some(Ok((4, s("2024-01-01T00:00:00Z"))));
    match unclaim_next(&f) {
        UnclaimStep::Reply(r) => assert_reply(&r, "You are trying to unclaim an anime not claimed by your team", true),
        _ => panic!(),
    }
    let mut f = unclaim_facts((claimed, 0), "2024-01-01T00:00:00Z");
    f.swapper_role = Some(Ok(false));
    match unclaim_next(&f) {
        UnclaimStep::Reply(r) => assert_reply(&r, "mika does not have the swapper role, and therefore cannot remove submissions", true),
        _ => panic!(),
    }
    let mut f = unclaim_facts((claimed, 0), "2024-01-01T00:00:00Z");
    f.now = None;
    assert!(matches!(unclaim_next(&f), UnclaimStep::Ask(UnclaimQuery::Now)));
    f.claim_info = None;
    assert!(matches!(unclaim_next(&f), UnclaimStep::Ask(UnclaimQuery::ClaimInfo)));
}

#[test]
fn unclaim_result_replies() {
    assert_reply(&unclaim_result_reply(true), "Successfully unclaimed anime", true);
    assert_reply(&unclaim_result_reply(false), "Error unclaming anime", true);
}

#[test]
fn anilist_links() {
    match parse_anilist_link("https://anilist.co/anime/21/One-Piece/") {
        AnilistLink::Anime { anime_id, title } => {
            assert_eq!(anime_id, 21);
            assert_eq!(title, "One Piece");
        },
        _ => panic!(),
    }
    match parse_anilist_link("https://anilist.co/anime/5114/Fullmetal-Alchemist-Brotherhood") {
        AnilistLink::Anime { anime_id, title } => {
            assert_eq!(anime_id, 5114);
            assert_eq!(title, "Fullmetal Alchemist Brotherhood");
        },
        _ => panic!(),
    }
    assert!(matches!(parse_anilist_link("https://anilist.co/anime/99999999999999999999/X"), AnilistLink::IdOutOfRange));
    for bad in [
        "https://anilist.co/anime/21/",
        "https://anilist.co/anime/21",
        "https://anilist.co/anime//One-Piece",
        "https://anilist.co/anime/2a/One-Piece",
        "https://anilist.co/anime/21/One Piece",
        "https://anilist.co/anime/21/One-Piece//",
        "https://anilist.co/manga/21/One-Piece",
        "http://anilist.co/anime/21/One-Piece",
        " https://anilist.co/anime/21/One-Piece",
        "",
    ] {
        assert!(matches!(parse_anilist_link(bad), AnilistLink::Invalid), "{}", bad);
    }
}

fn submit_facts(link: &str) -> SubmitFacts {
    SubmitFacts {
        user_id: 7,
        user_name: s("mika"),
        link: s(link),
        phase: Some(Some(s("1"))),
        swapper_role: Some(Ok(true)),
        user_exists: Some(Ok(true)),
        submission_count: Some(Ok(11)),
        anime_exists: Some(Ok(false)),
    }
}

#[test]
fn submit_succeeds() {
    match submit_anime_next(&submit_facts("https://anilist.co/anime/21/One-Piece")) {
        SubmitStep::CreateAnime { anime_id, title, user_id } => {
            assert_eq!(anime_id, 21);
            assert_eq!(title, "One Piece");
            assert_eq!(user_id, 7);
        },
        _ => panic!(),
    }
    let mut f = submit_facts("https://anilist.co/anime/21/One-Piece");
    f.anime_exists = None;
    assert!(matches!(submit_anime_next(&f), SubmitStep::Ask(SubmitQuery::AnimeExists(21))));
    let mut f = submit_facts("https://anilist.co/anime/21/One-Piece");
    f.user_exists = Some(Ok(false));
    assert!(matches!(submit_anime_next(&f), SubmitStep::CreateMember { user_id: 7 }));
}

#[test]
fn submit_refusals() {
    let mut f = submit_facts("https://anilist.co/anime/21/One-Piece");
    f.submission_count = Some(Ok(12));
    match submit_anime_next(&f) {
        SubmitStep::Reply(r) => assert_reply(&r, "You have already submitted 12 anime, if you want to submit a different anime you should remove a submission", true),
        _ => panic!(),
    }
    match submit_anime_next(&submit_facts("not a link")) {
        SubmitStep::Reply(r) => assert_reply(&r, "You did not provide a valid AL link", true),
        _ => panic!(),
    }
    assert!(matches!(submit_anime_next(&submit_facts("https://anilist.co/anime/99999999999999999999/X")), SubmitStep::IdOutOfRange));
    let mut f = submit_facts("https://anilist.co/anime/21/One-Piece");
    f.anime_exists = Some(Ok(true));
    match submit_anime_next(&f) {
        SubmitStep::Reply(r) => assert_reply(&r, "Anime has already been submitted", true),
        _ => panic!(),
    }
    let mut f = submit_facts("https://anilist.co/anime/21/One-Piece");
    f.swapper_role = Some(Ok(false));
    match submit_anime_next(&f) {
        SubmitStep::Reply(r) => assert_reply(&r, "mika does not have the swapper role, and therefore you cannot submit an anime", true),
        _ => panic!(),
    }
    assert_reply(&submitted_reply(), "Anime was submitted successfully", true);
}

fn tf() -> TeamFacts {
    TeamFacts {
        user_id: 7,
        user_name: s("mika"),
        phase: Some(Some(s("2"))),
        role: Some(Ok(true)),
        user_team: Some(Ok(None)),
        anime_submitter: Some(Ok(7)),
    }
}

#[test]
fn remove_submission_flow() {
    assert!(matches!(remove_submission_next(&tf()), TeamStep::Act(TeamAction::DeleteAnime)));
    let mut f = tf();
    f.anime_submitter = Some(Ok(8));
    match remove_submission_next(&f) {
        TeamStep::Reply(r) => assert_reply(&r, "You are trying to remove an anime you did not submit", true),
        _ => panic!(),
    }
    let mut f = tf();
    f.role = None;
    assert!(matches!(remove_submission_next(&f), TeamStep::Ask(TeamQuery::SwapperRole)));
    let mut f = tf();
    f.phase = Some(Some(s("3")));
    match remove_submission_next(&f) {
        TeamStep::Reply(r) => assert_reply(&r, "Command is not allowed in current phase", true),
        _ => panic!(),
    }
}

#[test]
fn leave_flow() {
    assert!(matches!(leave_next(&tf()), TeamStep::Act(TeamAction::DeleteUser)));
    let mut f = tf();
    f.user_team = Some(Ok(Some(3)));
    match leave_next(&f) {
        TeamStep::Reply(r) => assert_reply(&r, "If you want to leave the event, first leave your team", true),
        _ => panic!(),
    }
}

#[test]
fn team_edits_target_own_team() {
    let mut f = tf();
    f.user_team = Some(Ok(Some(3)));
    assert!(matches!(delete_team_next(&f), TeamStep::Act(TeamAction::DeleteTeam(3))));
    assert!(matches!(edit_team_name_next(&f), TeamStep::Act(TeamAction::UpdateTeamName(3))));
    assert!(matches!(edit_team_image_next(&f), TeamStep::Act(TeamAction::UpdateTeamImage(3))));
    let f = tf();
    match delete_team_next(&f) {
        TeamStep::Reply(r) => assert_reply(&r, "You are not in a team and thus cannot delete it", true),
        _ => panic!(),
    }
    match edit_team_name_next(&f) {
        TeamStep::Reply(r) => assert_reply(&r, "You are not in a team and thus cannot edit it", true),
        _ => panic!(),
    }
    match edit_team_image_next(&f) {
        TeamStep::Reply(r) => assert_reply(&r, "You are not in a team and thus cannot delete it", false),
        _ => panic!(),
    }
}

#[test]
fn set_phase_flow() {
    assert!(matches!(set_phase_next(&tf(), 3), TeamStep::Act(TeamAction::SetPhase(3))));
    match set_phase_next(&tf(), 4) {
        TeamStep::Reply(r) => assert_reply(&r, "trying to set invalid phase", true),
        _ => panic!(),
    }
    let mut f = tf();
    f.role = Some(Ok(false));
    match set_phase_next(&f, 1) {
        TeamStep::Reply(r) => assert_reply(&r, "mika does not have the host role, and therefore you can't set the phase", true),
        _ => panic!(),
    }
}

#[test]
fn action_replies() {
    assert_reply(&team_action_reply(TeamAction::DeleteAnime, true), "Anime removed successfully", true);
    assert_reply(&team_action_reply(TeamAction::DeleteUser, false), "Error removing you from the event", true);
    assert_reply(&team_action_reply(TeamAction::DeleteTeam(1), true), "Team has been deleted", true);
    assert_reply(&team_action_reply(TeamAction::UpdateTeamName(1), false), "Error updating team names", true);
    assert_reply(&team_action_reply(TeamAction::UpdateTeamImage(1), true), "Updated team image", false);
    assert_reply(&team_action_reply(TeamAction::SetPhase(2), true), "Set phase to: 2", true);
    assert_eq!(delete_teams_reply(true), "Teams were deleted succesfully");
    assert_eq!(delete_teams_reply(false), "An error occured deliting the teams");
}

#[test]
fn anilist_link_round_trip() {
    for (id, slug) in [(1u64, "A"), (154587, "Sousou-no-Frieren"), (u64::MAX, "x-1-y")] {
        for tail in ["", "/"] {
            let link = format!("https://anilist.co/anime/{}/{}{}", id, slug, tail);
            match parse_anilist_link(&link) {
                AnilistLink::Anime { anime_id, title } => {
                    assert_eq!(anime_id, id);
                    assert_eq!(title, slug.replace('-', " "));
                },
                _ => panic!("{}", link),
            }
        }
    }
}

#[test]
fn phase_rules_per_command() {
    for (setting, claims) in [("3", true), ("+3", true), ("2", false), ("1", false), ("0", false)] {
        let mut f = claim_facts();
        f.phase = Some(Some(s(setting)));
        assert_eq!(matches!(claim_next(&f), ClaimStep::CreateClaim { .. }), claims, "{}", setting);
    }
    let mut f = claim_facts();
    f.phase = Some(None);
    match claim_next(&f) {
        ClaimStep::Reply(r) => assert_reply(&r, "Error checking phases", true),
        _ => panic!(),
    }
    for (setting, creates) in [("2", true), ("1", false), ("3", false)] {
        let mut f = team_facts();
        f.phase = Some(Some(s(setting)));
        assert_eq!(matches!(create_team_next(&f), CreateTeamStep::Create), creates, "{}", setting);
    }
    for (setting, gives_back) in [("3", true), ("2", false)] {
        let claimed = 1_704_067_200i64;
        let mut f = unclaim_facts((claimed + 60, 0), "2024-01-01T00:00:00Z");
        f.phase = Some(Some(s(setting)));
        assert_eq!(matches!(unclaim_next(&f), UnclaimStep::DeleteClaim { .. }), gives_back, "{}", setting);
    }
    for (setting, submits) in [("1", true), ("2", true), ("3", false), ("0", false)] {
        let mut f = submit_facts("https://anilist.co/anime/21/One-Piece");
        f.phase = Some(Some(s(setting)));
        assert_eq!(matches!(submit_anime_next(&f), SubmitStep::CreateAnime { .. }), submits, "{}", setting);
    }
    for (setting, early, rename) in [("1", true, false), ("2", true, true), ("3", false, true), ("0", false, false)] {
        let mut f = tf();
        f.phase = Some(Some(s(setting)));
        assert_eq!(matches!(remove_submission_next(&f), TeamStep::Act(TeamAction::DeleteAnime)), early, "{}", setting);
        assert_eq!(matches!(leave_next(&f), TeamStep::Act(TeamAction::DeleteUser)), early, "{}", setting);
        f.user_team = Some(Ok(Some(3)));
        assert_eq!(matches!(edit_team_name_next(&f), TeamStep::Act(TeamAction::UpdateTeamName(3))), rename, "{}", setting);
    }
    let mut f = tf();
    f.phase = None;
    assert!(matches!(leave_next(&f), TeamStep::Ask(TeamQuery::Phase)));
}

fn status_facts() -> StatusFacts {
    StatusFacts {
        user_name: s("mika"),
        host_role: Some(Ok(true)),
        teams: Some(Ok(vec![TeamSummary { team_name: s("Blue"), member_names: vec![s("a"), s("b")] }])),
        counts: Some(Ok(vec![SubmissionCount { member_name: s("a"), count: 7 }])),
        lonely_users: Some(Ok(vec![s("c")])),
    }
}

#[test]
fn status_only_for_hosts() {
    assert!(matches!(status_next(&status_facts()), StatusStep::SendReport));
    assert_eq!(
        status_report_from(status_facts()),
        Some(s("Users who are not yet in a team:\nc\n\nTeams sorted by amount of members:\nBlue number of members: 2\n\nNumber of submissions per member:\na has submitted (7/12) anime\n"))
    );
    let mut f = status_facts();
    f.host_role = Some(Ok(false));
    match status_next(&f) {
        StatusStep::Reply(r) => assert_reply(&r, "mika does not have the host role, and therefore you can't check the status", true),
        _ => panic!(),
    }
    assert_eq!(status_report_from(f), None);
    let mut f = status_facts();
    f.host_role = None;
    assert!(matches!(status_next(&f), StatusStep::Ask(StatusQuery::HostRole)));
    let mut f = status_facts();
    f.host_role = Some(Err(()));
    match status_next(&f) {
        StatusStep::Reply(r) => assert_reply(&r, "An error has occured checking roles", true),
        _ => panic!(),
    }
    let mut f = status_facts();
    f.counts = Some(Err(()));
    match status_next(&f) {
        StatusStep::Reply(r) => assert_reply(&r, "Error fetching submissions", true),
        _ => panic!(),
    }
    assert_eq!(status_report_from(f), None);
    let mut f = status_facts();
    f.lonely_users = None;
    assert!(matches!(status_next(&f), StatusStep::Ask(StatusQuery::LonelyUsers)));
    assert_reply(&status_sent_reply(true), "Successfully sent status", true);
    assert_reply(&status_sent_reply(false), "Error sending status", true);
}
