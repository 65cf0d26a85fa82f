use anime_bot::compat_check::{
    add_friend_page, after_rate_limit, get_anime_list, match_scores, sort_by_id, total_abs_difference, AnimeScores,
    ScoreEntry,
};
use anime_bot::server_list::embed_helpers::{create_ranking_field, RankingRow};
use anime_bot::server_list::get_favs::add_favourites_page;
use anime_bot::server_list::get_user_list::{
    anime_status_to_str, collect_server_titles, flatten_entry_lists, get_user_list, parse_anime_status,
    parse_score_type, remove_duplicate_ids, score_type_to_str, ListEntryData,
};
use anime_bot::types::{AnimeScored, AnimeStatus, ScoreType, Title};

fn s(x: &str) -> String {
    x.to_string()
}

fn scored(id: u64, score: u64) -> AnimeScored {
    AnimeScored { id, score }
}

#[test]
fn sort_by_id_is_stable() {
    let sorted = sort_by_id(vec![scored(5, 1), scored(2, 2), scored(5, 3), scored(1, 4), scored(2, 5)]);
    assert_eq!(sorted, vec![scored(1, 4), scored(2, 2), scored(2, 5), scored(5, 1), scored(5, 3)]);
    assert!(sort_by_id(Vec::new()).is_empty());
}

#[test]
fn sort_by_id_matches_std() {
    let input = vec![scored(9, 0), scored(3, 1), scored(9, 2), scored(0, 3), scored(3, 4), scored(7, 5)];
    let mut expected = input.clone();
    expected.sort_by_key(|a| a.id);
    assert_eq!(sort_by_id(input), expected);
}

#[test]
fn match_scores_pairs_shared_anime() {
    let l1 = vec![scored(1, 80), scored(3, 60), scored(7, 90)];
    let l2 = vec![scored(2, 10), scored(3, 70), scored(7, 50), scored(9, 40)];
    assert_eq!(
        match_scores(&l1, &l2),
        vec![AnimeScores { id: 3, score1: 60, score2: 70 }, AnimeScores { id: 7, score1: 90, score2: 50 }]
    );
    assert!(match_scores(&l1, &Vec::new()).is_empty());
    assert!(match_scores(&vec![scored(1, 1)], &vec![scored(2, 1)]).is_empty());
}

#[test]
fn total_abs_difference_sums() {
    let pairs = vec![
        AnimeScores { id: 3, score1: 60, score2: 70 },
        AnimeScores { id: 7, score1: 90, score2: 50 },
        AnimeScores { id: 8, score1: 5, score2: 5 },
    ];
    assert_eq!(total_abs_difference(&pairs), 50);
    assert_eq!(total_abs_difference(&Vec::new()), 0);
}

#[test]
fn get_anime_list_keeps_scored_entries() {
    let lists = vec![
        vec![
            ScoreEntry { score: Some(80), media_id: 1 },
            ScoreEntry { score: None, media_id: 2 },
            ScoreEntry { score: Some(0), media_id: 3 },
        ],
        vec![ScoreEntry { score: Some(10), media_id: 4 }],
    ];
    assert_eq!(get_anime_list(&lists), vec![scored(1, 80), scored(3, 0)]);
    assert!(get_anime_list(&Vec::new()).is_empty());
}

#[test]
fn rate_limit_retries() {
    assert_eq!(after_rate_limit(0), Some(1));
    assert_eq!(after_rate_limit(59), Some(60));
    assert_eq!(after_rate_limit(60), None);
    assert_eq!(after_rate_limit(u64::MAX), None);
}

#[test]
fn friend_pages() {
    let mut friends = vec![s("a")];
    let full: Vec<String> = (0..50).map(|i| format!("f{}", i)).collect();
    assert!(add_friend_page(&mut friends, full));
    assert_eq!(friends.len(), 51);
    assert_eq!(friends[1], "f0");
    assert!(!add_friend_page(&mut friends, vec![s("last")]));
    assert_eq!(friends.len(), 52);
    assert_eq!(friends[51], "last");
    assert!(!add_friend_page(&mut friends, Vec::new()));
    assert_eq!(friends.len(), 52);
}

fn title(romaji: Option<&str>, native: Option<&str>, english: Option<&str>) -> Title {
    Title { romaji: romaji.map(s), native: native.map(s), english: english.map(s) }
}

fn data(id: u64, status: &str, repeat: u64) -> ListEntryData {
    ListEntryData {
        score_bits: 8.5f64.to_bits(),
        media_id: id,
        title: title(Some("r"), None, Some("e")),
        notes: None,
        repeat,
        status: s(status),
    }
}

#[test]
fn remove_duplicate_ids_keeps_first() {
    let out = remove_duplicate_ids(vec![data(1, "CURRENT", 0), data(2, "PLANNING", 0), data(1, "DROPPED", 5), data(3, "PAUSED", 0), data(2, "CURRENT", 1)]);
    let ids: Vec<u64> = out.iter().map(|e| e.media_id).collect();
    assert_eq!(ids, vec![1, 2, 3]);
    assert_eq!(out[0].status, "CURRENT");
    assert_eq!(out[1].status, "PLANNING");
    assert!(remove_duplicate_ids(Vec::new()).is_empty());
}

#[test]
fn flatten_keeps_list_order() {
    let out = flatten_entry_lists(vec![vec![data(1, "CURRENT", 0)], Vec::new(), vec![data(2, "CURRENT", 0), data(3, "CURRENT", 0)]]);
    let ids: Vec<u64> = out.iter().map(|e| e.media_id).collect();
    assert_eq!(ids, vec![1, 2, 3]);
}

#[test]
fn statuses_and_score_types() {
    assert_eq!(parse_anime_status("CURRENT"), Some(AnimeStatus::CURRENT));
    assert_eq!(parse_anime_status("REPEATING"), Some(AnimeStatus::REPEATING));
    assert_eq!(parse_anime_status("current"), None);
    assert_eq!(parse_score_type("POINT_10_DECIMAL"), Some(ScoreType::POINT_10_DECIMAL));
    assert_eq!(parse_score_type("POINT_3"), Some(ScoreType::POINT_3));
    assert_eq!(parse_score_type("POINT_1"), None);
    for t in [ScoreType::POINT_100, ScoreType::POINT_10_DECIMAL, ScoreType::POINT_10, ScoreType::POINT_5, ScoreType::POINT_3] {
        assert_eq!(parse_score_type(&score_type_to_str(t)), Some(t));
    }
    for t in [
        AnimeStatus::CURRENT,
        AnimeStatus::PLANNING,
        AnimeStatus::COMPLETED,
        AnimeStatus::DROPPED,
        AnimeStatus::PAUSED,
        AnimeStatus::REPEATING,
    ] {
        assert_eq!(parse_anime_status(&anime_status_to_str(t)), Some(t));
    }
    assert_eq!(score_type_to_str(ScoreType::POINT_5), "POINT_5");
    assert_eq!(anime_status_to_str(AnimeStatus::PAUSED), "PAUSED");
}

#[test]
fn user_list_from_entries() {
    let lists = vec![
        vec![data(1, "COMPLETED", 2), data(2, "SOMETHING", 0)],
        vec![data(1, "CURRENT", 0), data(3, "PLANNING", 0)],
    ];
    let ul = get_user_list("mika", 42, "POINT_100", lists, &vec![3, 9]);
    assert_eq!(ul.user_id, 42);
    assert_eq!(ul.user_name, "mika");
    assert_eq!(ul.user_score_type, ScoreType::POINT_100);
    assert_eq!(ul.anime.len(), 2);
    assert_eq!(ul.anime[0].anime_id, 1);
    assert_eq!(ul.anime[0].status, AnimeStatus::COMPLETED);
    assert_eq!(ul.anime[0].repeats, 2);
    assert!(!ul.anime[0].favourite);
    assert_eq!(f64::from_bits(ul.anime[0].score_bits), 8.5);
    assert_eq!(ul.anime[1].anime_id, 3);
    assert!(ul.anime[1].favourite);
    let ul = get_user_list("x", 1, "weird", Vec::new(), &Vec::new());
    assert_eq!(ul.user_score_type, ScoreType::POINT_10);
    assert!(ul.anime.is_empty());
}

#[test]
fn server_titles() {
    let titles = vec![title(Some("Shingeki"), Some("進撃"), Some("Attack")), title(None, None, Some("Only"))];
    assert_eq!(collect_server_titles(&titles), vec![s("Shingeki"), s("進撃"), s("Attack"), s("Only")]);
}

#[test]
fn ranking_field_layout() {
    let rows = vec![
        RankingRow { user_name: s("mika"), score: s("9.5"), status: s("C"), is_favourite: true },
        RankingRow { user_name: s("a-very-long-user-name-here"), score: s("100"), status: s("P"), is_favourite: false },
    ];
    let field = create_ranking_field(&rows);
    let expected = format!(
        "```\n{:<21} {:5} {:4} {:1}\n{:<21} {:5} {:4} {:1}\n{:<21} {:5} {:4} {:1}\n```",
        "Username", "Score", "Stat", "Fav", "mika", "9.5", "C", "⭐", "a-very-long-user-name-here", "100", "P", ""
    );
    assert_eq!(field, expected);
    assert_eq!(
        create_ranking_field(&Vec::new()),
        "```\nUsername              Score Stat Fav\n```"
    );
}

#[test]
fn match_scores_either_way() {
    let l1 = vec![scored(1, 80), scored(3, 60), scored(7, 90)];
    let l2 = vec![scored(3, 70), scored(7, 50), scored(9, 40)];
    let forward = match_scores(&l1, &l2);
    let backward = match_scores(&l2, &l1);
    let swapped: Vec<AnimeScores> =
        forward.iter().map(|p| AnimeScores { id: p.id, score1: p.score2, score2: p.score1 }).collect();
    assert_eq!(backward, swapped);
    assert_eq!(total_abs_difference(&forward), total_abs_difference(&backward));
    assert_eq!(total_abs_difference(&forward), 50);
}

#[test]
fn pairing_ignores_order_of_second_list() {
    let l1 = vec![scored(1, 80), scored(3, 60), scored(7, 90)];
    let expected = vec![AnimeScores { id: 3, score1: 60, score2: 70 }, AnimeScores { id: 7, score1: 90, score2: 50 }];
    for l2 in [
        vec![scored(9, 40), scored(3, 70), scored(7, 50), scored(2, 10)],
        vec![scored(7, 50), scored(2, 10), scored(9, 40), scored(3, 70)],
        vec![scored(2, 10), scored(3, 70), scored(7, 50), scored(9, 40)],
    ] {
        assert_eq!(match_scores(&l1, &sort_by_id(l2)), expected);
    }
}

#[test]
fn favourites_pages() {
    let mut ids = vec![1];
    assert!(add_favourites_page(&mut ids, vec![2, 3], true));
    assert!(!add_favourites_page(&mut ids, vec![4], false));
    assert_eq!(ids, vec![1, 2, 3, 4]);
}
