use anime_bot::anime_guessing_game::{
    add_anime_info, anime_guessing_setup, anime_guessing_setup_at, any_within_guess_distance,
    game_in_progress, generate_hint, get_all_names,
    give_up_message, guess_message, process_guess, process_hint, process_hints,
    process_typed_hint, rank_weight, render_hint, GuessEntry, GuessMedia, GuessTitle,
};
use anime_bot::helpers::get_typed_hint;
use anime_bot::types::{Hint, Staff, Tag};

fn s(x: &str) -> String {
    x.to_string()
}

fn strings(xs: &[&str]) -> Vec<String> {
    xs.iter().map(|x| x.to_string()).collect()
}

fn entry(id: u64, score: u64, romaji: Option<&str>, english: Option<&str>) -> GuessEntry {
    GuessEntry {
        score,
        media: GuessMedia {
            id,
            season: None,
            season_year: None,
            format: None,
            genres: Vec::new(),
            tags: Vec::new(),
            average_score: None,
            source: None,
            title: GuessTitle { romaji: romaji.map(s), english: english.map(s) },
        },
    }
}

fn naruto() -> GuessEntry {
    GuessEntry {
        score: 85,
        media: GuessMedia {
            id: 20,
            season: Some(s("FALL")),
            season_year: Some(2002),
            format: Some(s("TV")),
            genres: strings(&["Action"]),
            tags: vec![Tag { name: s("Ninja"), rank: 90 }],
            average_score: Some(79),
            source: Some(s("MANGA")),
            title: GuessTitle { romaji: Some(s("Naruto")), english: Some(s("Naruto")) },
        },
    }
}

fn kind(h: &Hint) -> &'static str {
    match h {
        Hint::Season(_) => "Season",
        Hint::SeasonYear(_) => "Year",
        Hint::Format(_) => "Format",
        Hint::Genres(_) => "Genre",
        Hint::Studios(_) => "Studio",
        Hint::VoiceActors(_) => "Voice Actor",
        Hint::Tag(_) => "Tag",
        Hint::Staff(_) => "Staff",
        Hint::AverageScore(_) => "AL Score",
        Hint::Source(_) => "Source",
        Hint::UserScore(_) => "User Score",
    }
}

#[test]
fn rank_weight_bands() {
    assert_eq!(rank_weight(0), "unscored");
    assert_eq!(rank_weight(1), "very low");
    assert_eq!(rank_weight(19), "very low");
    assert_eq!(rank_weight(20), "low");
    assert_eq!(rank_weight(50), "low");
    assert_eq!(rank_weight(51), "middling");
    assert_eq!(rank_weight(65), "middling");
    assert_eq!(rank_weight(66), "high");
    assert_eq!(rank_weight(75), "high");
    assert_eq!(rank_weight(76), "very high");
    assert_eq!(rank_weight(90), "very high");
    assert_eq!(rank_weight(91), "extremely high");
    assert_eq!(rank_weight(100), "extremely high");
    assert_eq!(rank_weight(101), "out of range");
}

#[test]
fn render_hint_plain_kinds() {
    let (t, rest) = render_hint(Hint::SeasonYear(2011), 0);
    assert_eq!(t, "This anime started airing in the year **2011**");
    assert!(rest.is_none());
    let (t, _) = render_hint(Hint::UserScore(85), 0);
    assert_eq!(t, "You gave this anime a **very high** score");
    let (t, _) = render_hint(Hint::AverageScore(10), 0);
    assert_eq!(t, "On AL this anime has a **very low** average score");
    let (t, _) = render_hint(Hint::Format(s("TV")), 0);
    assert_eq!(t, "The format of this anime is: **TV**");
    let (t, _) = render_hint(Hint::Season(s("FALL")), 0);
    assert_eq!(t, "This anime aired in the **FALL** season");
    let (t, rest) = render_hint(Hint::Source(s("MANGA")), 0);
    assert_eq!(t, "The source of this anime is: **MANGA**");
    assert!(rest.is_none());
}

#[test]
fn render_hint_list_kinds() {
    let (t, rest) = render_hint(Hint::Genres(strings(&["Action", "Drama"])), 1);
    assert_eq!(t, "**Drama** is one of this anime's genres");
    match rest {
        Some(Hint::Genres(v)) => assert_eq!(v, strings(&["Action"])),
        _ => panic!("the other genre should stay"),
    }
    let (t, rest) = render_hint(Hint::Genres(strings(&["Action"])), 0);
    assert_eq!(t, "**Action** is one of this anime's genres");
    assert!(rest.is_none());
    let (t, rest) = render_hint(Hint::Genres(Vec::new()), 0);
    assert_eq!(t, "weh");
    assert!(rest.is_none());
    let (t, rest) = render_hint(Hint::Tag(vec![Tag { name: s("Isekai"), rank: 80 }, Tag { name: s("Magic"), rank: 30 }]), 0);
    assert_eq!(t, "**Isekai** is one of this anime's tags and it has a **very high** rating");
    match rest {
        Some(Hint::Tag(v)) => {
            assert_eq!(v.len(), 1);
            assert_eq!(v[0].name, "Magic");
            assert_eq!(v[0].rank, 30);
        },
        _ => panic!("the other tag should stay"),
    }
    let (t, rest) = render_hint(Hint::Studios(strings(&["Bones", "MAPPA"])), 1);
    assert_eq!(t, "This anime was made by **MAPPA**");
    assert!(rest.is_none());
    let (t, rest) = render_hint(Hint::VoiceActors(strings(&["Kana Hanazawa"])), 0);
    assert_eq!(t, "**Kana Hanazawa** voiced a main character in this show");
    assert!(rest.is_none());
    let (t, rest) = render_hint(Hint::Staff(vec![Staff { name: s("Hayao Miyazaki"), role: s("Director") }]), 0);
    assert_eq!(t, "**Hayao Miyazaki** worked on this anime with the role of: **Director**");
    assert!(rest.is_none());
}

#[test]
fn process_hint_on_no_hints() {
    let mut hints: Vec<Hint> = Vec::new();
    assert_eq!(process_hint(&mut hints), "No hints are left!");
    assert!(hints.is_empty());
}

#[test]
fn process_hint_uses_up_a_single_hint() {
    let mut hints = vec![Hint::SeasonYear(1999)];
    assert_eq!(process_hint(&mut hints), "This anime started airing in the year **1999**");
    assert!(hints.is_empty());
}

#[test]
fn process_hint_keeps_other_genres() {
    let mut hints = vec![Hint::Genres(strings(&["A", "B"]))];
    let t = process_hint(&mut hints);
    assert_eq!(hints.len(), 1);
    match &hints[0] {
        Hint::Genres(v) => {
            assert_eq!(v.len(), 1);
            assert_eq!(t, format!("**{}** is one of this anime's genres", if v[0] == "A" { "B" } else { "A" }));
        },
        _ => panic!("the genres hint should stay"),
    }
}

#[test]
fn process_hint_runs_out() {
    let mut hints = vec![
        Hint::Genres(strings(&["A", "B", "C"])),
        Hint::Format(s("TV")),
        Hint::Tag(vec![Tag { name: s("X"), rank: 5 }]),
    ];
    let mut texts = Vec::new();
    for _ in 0..5 {
        texts.push(process_hint(&mut hints));
    }
    assert!(hints.is_empty());
    assert!(texts.iter().all(|t| t != "No hints are left!"));
    assert_eq!(process_hint(&mut hints), "No hints are left!");
}

#[test]
fn typed_hint_takes_first_of_kind() {
    let mut hints = vec![Hint::SeasonYear(2000), Hint::Format(s("TV")), Hint::Format(s("OVA"))];
    assert_eq!(process_typed_hint(&mut hints, "Format"), "The format of this anime is: **TV**");
    assert_eq!(hints.len(), 2);
    assert_eq!(kind(&hints[0]), "Year");
    match &hints[1] {
        Hint::Format(f) => assert_eq!(f, "OVA"),
        _ => panic!("the second format should stay"),
    }
}

#[test]
fn typed_hint_none_of_kind() {
    let mut hints = vec![Hint::SeasonYear(2000)];
    assert_eq!(process_typed_hint(&mut hints, "Studio"), "No hints of that type are left!");
    assert_eq!(hints.len(), 1);
}

#[test]
fn get_typed_hint_kind_names() {
    let mut hints = vec![
        Hint::Season(s("FALL")),
        Hint::SeasonYear(1),
        Hint::Format(s("TV")),
        Hint::Genres(strings(&["g"])),
        Hint::Studios(strings(&["s"])),
        Hint::VoiceActors(strings(&["v"])),
        Hint::Tag(vec![Tag { name: s("t"), rank: 1 }]),
        Hint::Staff(vec![Staff { name: s("n"), role: s("r") }]),
        Hint::AverageScore(1),
        Hint::Source(s("MANGA")),
        Hint::UserScore(1),
    ];
    for name in ["User Score", "Source", "AL Score", "Staff", "Tag", "Voice Actor", "Studio", "Genre", "Format", "Year", "Season"] {
        let before = hints.len();
        let h = get_typed_hint(&mut hints, name).expect("a hint of each kind");
        assert_eq!(kind(&h), name);
        assert_eq!(hints.len(), before - 1);
    }
    assert!(hints.is_empty());
    assert!(get_typed_hint(&mut hints, "Year").is_none());
}

#[test]
fn get_typed_hint_unknown_kind() {
    let mut hints = vec![Hint::UserScore(3)];
    assert!(get_typed_hint(&mut hints, "year").is_none());
    assert_eq!(hints.len(), 1);
}

#[test]
fn process_hints_counts() {
    let mut hints = vec![Hint::SeasonYear(2000), Hint::Format(s("TV")), Hint::Source(s("MANGA"))];
    assert!(process_hints(&mut hints, None, 0).is_empty());
    assert_eq!(hints.len(), 3);
    let texts = process_hints(&mut hints, None, 11);
    assert_eq!(texts.len(), 1);
    assert_eq!(hints.len(), 2);
    let texts = process_hints(&mut hints, None, 4);
    assert_eq!(texts.len(), 4);
    assert_eq!(texts[2], "No hints are left!");
    assert_eq!(texts[3], "No hints are left!");
    assert!(hints.is_empty());
}

#[test]
fn process_hints_of_a_kind() {
    let mut hints = vec![Hint::SeasonYear(2000), Hint::Source(s("MANGA")), Hint::Source(s("NOVEL"))];
    let texts = process_hints(&mut hints, Some("Source"), 3);
    assert_eq!(texts, vec![
        s("The source of this anime is: **MANGA**"),
        s("The source of this anime is: **NOVEL**"),
        s("No hints of that type are left!"),
    ]);
    assert_eq!(hints.len(), 1);
}

#[test]
fn get_all_names_drops_adjacent_repeats() {
    let entries = vec![
        entry(1, 0, Some("Naruto"), Some("Naruto")),
        entry(2, 0, Some("Bleach"), None),
        entry(3, 0, None, None),
        entry(4, 0, Some("Naruto"), Some("Naruto: Shippuden")),
    ];
    assert_eq!(get_all_names(&entries), strings(&["Naruto", "Bleach", "Naruto", "Naruto: Shippuden"]));
    assert!(get_all_names(&Vec::new()).is_empty());
}

#[test]
fn generate_hint_order() {
    let g = generate_hint(&naruto());
    assert_eq!(g.id, 20);
    assert_eq!(g.synonyms, strings(&["Naruto", "Naruto"]));
    let kinds: Vec<&str> = g.hints.iter().map(kind).collect();
    assert_eq!(kinds, vec!["Year", "User Score", "Genre", "Tag", "Season", "Format", "AL Score", "Source"]);
    match &g.hints[0] {
        Hint::SeasonYear(y) => assert_eq!(*y, 2002),
        _ => panic!(),
    }
    match &g.hints[1] {
        Hint::UserScore(x) => assert_eq!(*x, 85),
        _ => panic!(),
    }
    match &g.hints[6] {
        Hint::AverageScore(x) => assert_eq!(*x, 79),
        _ => panic!(),
    }
}

#[test]
fn generate_hint_sparse_entry() {
    let g = generate_hint(&entry(7, 40, None, Some("Title")));
    assert_eq!(g.id, 7);
    assert_eq!(g.synonyms, strings(&["Title"]));
    let kinds: Vec<&str> = g.hints.iter().map(kind).collect();
    assert_eq!(kinds, vec!["User Score"]);
}

#[test]
fn process_guess_ignores_case() {
    assert!(process_guess("NARUTO", &strings(&["naruto"])));
    assert!(process_guess("naruto", &strings(&["NARUTO"])));
}

#[test]
fn process_guess_tolerance() {
    let titles = strings(&["Naruto", "Bleach"]);
    assert!(process_guess("Narotu", &titles));
    assert!(process_guess("Bleach!!!", &titles));
    assert!(!process_guess("Bleach!!!!", &titles));
    assert!(!process_guess("Naruto Shippuden", &titles));
    assert!(!process_guess("anything", &Vec::new()));
}

#[test]
fn any_within_guess_distance_cases() {
    assert!(any_within_guess_distance(&vec![4, 5, 3]));
    assert!(any_within_guess_distance(&vec![0]));
    assert!(!any_within_guess_distance(&vec![4, 9]));
    assert!(!any_within_guess_distance(&Vec::new()));
}

#[test]
fn add_anime_info_skips_empty_lists() {
    let mut hints = vec![Hint::UserScore(1)];
    add_anime_info(&mut hints, strings(&["Bones"]), Vec::new(), vec![Staff { name: s("A"), role: s("B") }]);
    let kinds: Vec<&str> = hints.iter().map(kind).collect();
    assert_eq!(kinds, vec!["User Score", "Studio", "Staff"]);
    add_anime_info(&mut hints, Vec::new(), strings(&["V"]), Vec::new());
    let kinds: Vec<&str> = hints.iter().map(kind).collect();
    assert_eq!(kinds, vec!["User Score", "Studio", "Staff", "Voice Actor"]);
}

#[test]
fn setup_at_chosen_entry() {
    let entries = vec![entry(1, 10, Some("A"), None), naruto()];
    let (g, names) = anime_guessing_setup_at(&entries, 1);
    assert_eq!(g.id, 20);
    assert_eq!(g.synonyms, strings(&["Naruto", "Naruto"]));
    assert_eq!(names, strings(&["A", "Naruto"]));
}

#[test]
fn setup_single_entry_list() {
    let lists = vec![vec![entry(1, 10, Some("A"), None)], vec![naruto()]];
    let (g, names) = anime_guessing_setup(&lists, 1);
    assert_eq!(g.id, 20);
    assert_eq!(names, strings(&["Naruto"]));
    let (g, _) = anime_guessing_setup(&lists, 0);
    assert_eq!(g.id, 1);
}

#[test]
fn game_in_progress_cases() {
    assert!(game_in_progress(Ok(5)));
    assert!(!game_in_progress(Ok(0)));
    assert!(!game_in_progress(Err(())));
}

#[test]
fn give_up_messages() {
    assert_eq!(give_up_message(21, 0), "No game to give up!");
    assert_eq!(give_up_message(21, 1), "You've given up, the anime was: https://anilist.co/anime/21");
}

#[test]
fn guess_messages() {
    assert_eq!(
        guess_message(true, 21, "One Piece"),
        "You guessed right! <:happy:1210688855011762196> The anime was: https://anilist.co/anime/21"
    );
    assert_eq!(guess_message(false, 21, "Naruto"), "Your guess of Naruto is wrong!");
}

#[test]
fn exact_title_is_right() {
    let titles = strings(&["Kaguya-sama wa Kokurasetai: Tensai-tachi no Renai Zunousen", "Kaguya-sama: Love is War"]);
    assert!(process_guess("Kaguya-sama: Love is War", &titles));
    assert!(process_guess("Kaguya-sama wa Kokurasetai: Tensai-tachi no Renai Zunousen", &titles));
    assert!(!process_guess("Kaguya-sama: Love is Peace", &titles));
}
