use anime_bot::anime_guessing_helpers::staff::{self, get_staff};
use anime_bot::anime_guessing_helpers::studios::{get_studios, StudioEdge};
use anime_bot::anime_guessing_helpers::voice_actors::{self, get_voice_actors};
use anime_bot::anime_year_duration::{add_year_page, anime_in_year, count_minutes_of_anime, AnimeLength, YearMedia};
use anime_bot::helpers::{display_str_vec, get_random_element_from_vec, str_equal, take_element_at};
use anime_bot::team_swapping::status::{
    display_teams_text, sort_anime_by_name, sort_tallies, sort_teams_by_size, status_report, string_less,
    SubmissionCount, TeamSummary,
};
use anime_bot::text::{push_decimal, push_str, u64_to_string};
use anime_bot::types::SubmittedAnime;

fn s(x: &str) -> String {
    x.to_string()
}

fn strings(xs: &[&str]) -> Vec<String> {
    xs.iter().map(|x| x.to_string()).collect()
}

#[test]
fn display_str_vec_lines() {
    assert_eq!(display_str_vec(&strings(&["a", "b"])), "a\nb");
    assert_eq!(display_str_vec(&Vec::new()), "");
    assert_eq!(display_str_vec(&strings(&["a ", " "])), "a");
    assert_eq!(display_str_vec(&strings(&[" x", "", "y\t"])), " x\n\ny");
}

#[test]
fn display_str_vec_matches_join_trim() {
    let v = strings(&["one", "two  ", "", "three\u{3000}"]);
    let expected: String = v.iter().map(|x| format!("{}\n", x)).collect::<String>().trim_end().to_string();
    assert_eq!(display_str_vec(&v), expected);
}

#[test]
fn take_element_keeps_order() {
    let mut v = vec![1, 2, 3];
    assert_eq!(take_element_at(&mut v, 1), 2);
    assert_eq!(v, vec![1, 3]);
}

#[test]
fn random_element_cases() {
    let mut v: Vec<u8> = Vec::new();
    assert_eq!(get_random_element_from_vec(&mut v), None);
    let mut v = vec![7];
    assert_eq!(get_random_element_from_vec(&mut v), Some(7));
    assert!(v.is_empty());
    let mut v = vec![1, 2, 3, 4];
    let x = get_random_element_from_vec(&mut v).unwrap();
    assert_eq!(v.len(), 3);
    assert!(!v.contains(&x));
    let mut all = v.clone();
    all.push(x);
    all.sort();
    assert_eq!(all, vec![1, 2, 3, 4]);
}

#[test]
fn str_equal_cases() {
    assert!(str_equal("abc", "abc"));
    assert!(!str_equal("abc", "abd"));
    assert!(!str_equal("abc", "ab"));
    assert!(str_equal("", ""));
}

#[test]
fn decimal_rendering() {
    assert_eq!(u64_to_string(0), "0");
    assert_eq!(u64_to_string(7), "7");
    assert_eq!(u64_to_string(10), "10");
    assert_eq!(u64_to_string(1234567890), "1234567890");
    assert_eq!(u64_to_string(u64::MAX), u64::MAX.to_string());
    let mut t = s("n=");
    push_decimal(&mut t, 305);
    push_str(&mut t, "!");
    assert_eq!(t, "n=305!");
}

fn team(name: &str, members: &[&str]) -> TeamSummary {
    TeamSummary { team_name: s(name), member_names: strings(members) }
}

#[test]
fn status_report_layout() {
    let report = status_report(
        &strings(&["alice"]),
        vec![team("B", &["x", "y"]), team("A", &["z"]), team("C", &["u", "v"])],
        vec![SubmissionCount { member_name: s("x"), count: 7 }, SubmissionCount { member_name: s("y"), count: 3 }],
    );
    assert_eq!(
        report,
        "Users who are not yet in a team:\nalice\n\nTeams sorted by amount of members:\nA number of members: 1\nB number of members: 2\nC number of members: 2\n\nNumber of submissions per member:\ny has submitted (3/12) anime\nx has submitted (7/12) anime\n"
    );
    assert_eq!(
        status_report(&Vec::new(), Vec::new(), Vec::new()),
        "Users who are not yet in a team:\n\nTeams sorted by amount of members:\n\nNumber of submissions per member:\n"
    );
}

#[test]
fn sorts_are_stable() {
    let teams = sort_teams_by_size(vec![team("B", &["1", "2"]), team("A", &["1"]), team("C", &["1", "2"]), team("D", &[])]);
    let names: Vec<&str> = teams.iter().map(|t| t.team_name.as_str()).collect();
    assert_eq!(names, vec!["D", "A", "B", "C"]);
    let tallies = sort_tallies(vec![
        SubmissionCount { member_name: s("p"), count: 5 },
        SubmissionCount { member_name: s("q"), count: 2 },
        SubmissionCount { member_name: s("r"), count: 5 },
    ]);
    let names: Vec<&str> = tallies.iter().map(|t| t.member_name.as_str()).collect();
    assert_eq!(names, vec!["q", "p", "r"]);
}

#[test]
fn display_teams_lines() {
    assert_eq!(display_teams_text(&Vec::new()), "There are no teams to be displayed");
    assert_eq!(
        display_teams_text(&vec![team("Blue", &["ann", "bob"]), team("Red", &[])]),
        "Team: Blue has members: ann\nbob\nTeam: Red has members:"
    );
}

fn submitted(id: u64, name: &str) -> SubmittedAnime {
    SubmittedAnime { anime_id: id, anime_name: s(name), submitter_name: s("x"), claimed_by_team: None, claimed_on: None }
}

#[test]
fn string_order() {
    assert!(string_less("abc", "abd"));
    assert!(string_less("ab", "abc"));
    assert!(string_less("", "a"));
    assert!(!string_less("a", "a"));
    assert!(!string_less("b", "a"));
    assert!(string_less("Z", "a"));
    assert!(string_less("é", "ё"));
    for (a, b) in [("x", "xy"), ("naïve", "naive"), ("日本", "日"), ("", "")] {
        assert_eq!(string_less(a, b), a < b, "{} {}", a, b);
    }
}

#[test]
fn anime_sorted_by_name() {
    let out = sort_anime_by_name(vec![submitted(1, "Naruto"), submitted(2, "Bleach"), submitted(3, "Naruto"), submitted(4, "Akira")]);
    let ids: Vec<u64> = out.iter().map(|a| a.anime_id).collect();
    assert_eq!(ids, vec![4, 2, 1, 3]);
    assert!(sort_anime_by_name(Vec::new()).is_empty());
}

fn length(name: &str, eps: Option<u64>, dur: Option<u64>) -> AnimeLength {
    AnimeLength { anime_name: s(name), anime_episode_count: eps, anime_episode_length: dur }
}

#[test]
fn minutes_of_anime() {
    assert_eq!(count_minutes_of_anime(&length("a", Some(12), Some(24))), 288);
    assert_eq!(count_minutes_of_anime(&length("b", None, Some(24))), 0);
    assert_eq!(count_minutes_of_anime(&length("c", Some(3), None)), 0);
    let a = AnimeLength::from_media(YearMedia { title_romaji: s("Akira"), episodes: Some(1), duration: Some(124) });
    assert_eq!(a.anime_name, "Akira");
    assert_eq!(count_minutes_of_anime(&a), 124);
}

#[test]
fn year_totals() {
    let anime = vec![length("a", Some(12), Some(24)), length("b", Some(1), Some(125)), length("c", None, Some(24))];
    assert_eq!(anime_in_year("2020", &anime), Some(s("The year 2020 has 6 hours and 53 minutes of anime!")));
    assert_eq!(anime_in_year("1990", &Vec::new()), Some(s("The year 1990 has 0 hours and 0 minutes of anime!")));
    assert_eq!(anime_in_year("x", &vec![length("big", Some(u64::MAX), Some(2))]), None);
    assert_eq!(anime_in_year("x", &vec![length("a", Some(u64::MAX), Some(1)), length("b", Some(1), Some(1))]), None);
}

#[test]
fn staff_first_five() {
    let edges: Vec<staff::Edge> = (0..7)
        .map(|i| staff::Edge { node: staff::Node { name: staff::Name { full: format!("P{}", i) } }, role: format!("R{}", i) })
        .collect();
    let media = staff::Media { staff: staff::Staff { edges } };
    let out = get_staff(&media);
    assert_eq!(out.len(), 5);
    assert_eq!(out[0].name, "P0");
    assert_eq!(out[4].role, "R4");
    let few = staff::Media { staff: staff::Staff { edges: Vec::new() } };
    assert!(get_staff(&few).is_empty());
}

#[test]
fn main_studios_only() {
    let edges = vec![
        StudioEdge { name: s("Bones"), is_main: true },
        StudioEdge { name: s("Aniplex"), is_main: false },
        StudioEdge { name: s("MAPPA"), is_main: true },
    ];
    assert_eq!(get_studios(&edges), strings(&["Bones", "MAPPA"]));
}

#[test]
fn first_voice_actor_of_each_character() {
    let va = |n: &str| voice_actors::VoiceActor { name: voice_actors::Name { full: s(n) } };
    let media = voice_actors::Media {
        characters: voice_actors::Characters {
            edges: vec![
                voice_actors::Edge { node: voice_actors::Node { id: 1 }, voice_actors: vec![va("A"), va("B")] },
                voice_actors::Edge { node: voice_actors::Node { id: 2 }, voice_actors: Vec::new() },
                voice_actors::Edge { node: voice_actors::Node { id: 3 }, voice_actors: vec![va("C")] },
            ],
        },
    };
    assert_eq!(get_voice_actors(&media), strings(&["A", "C"]));
}

#[test]
fn year_pages() {
    let mut anime = vec![length("a", Some(1), Some(2))];
    assert!(add_year_page(&mut anime, vec![length("b", None, None), length("c", Some(3), Some(4))]));
    assert_eq!(anime.len(), 3);
    assert_eq!(anime[2].anime_name, "c");
    assert!(!add_year_page(&mut anime, Vec::new()));
    assert_eq!(anime.len(), 3);
}
