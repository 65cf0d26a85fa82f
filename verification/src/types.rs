use vstd::prelude::*;

verus! {

/// An AniList tag: its name and the rank (0..=100) it has on the show.
pub struct Tag {
    pub name: String,
    pub rank: u64,
}

/// A staff member of a show: full romaji name and role.
pub struct Staff {
    pub name: String,
    pub role: String,
}

/// An anime submitted to the team swap.
pub struct SubmittedAnime {
    pub anime_id: u64,
    pub anime_name: String,
    pub submitter_name: String,
    pub claimed_by_team: Option<String>,
    pub claimed_on: Option<String>,
}

/// The list of a user, as it is stored for the server list.
pub struct UserList {
    pub user_id: u64,
    pub user_name: String,
    pub user_score_type: ScoreType,
    pub anime: Vec<UserAnimeInfo>,
}

/// The scoring system a user has chosen on AniList.
#[derive(PartialEq, Eq, Structural, Clone, Copy, Debug)]
#[allow(non_camel_case_types)]
pub enum ScoreType {
    POINT_100,
    POINT_10_DECIMAL,
    POINT_10,
    POINT_5,
    POINT_3,
}

/// The watching status of an entry on a list.
#[derive(PartialEq, Eq, Structural, Clone, Copy, Debug)]
pub enum AnimeStatus {
    CURRENT,
    PLANNING,
    COMPLETED,
    DROPPED,
    PAUSED,
    REPEATING,
}

/// One row of the server list joined with its user and anime.
/// The score is a floating-point value on AniList; the library carries its
/// IEEE-754 bit pattern (`f64::to_bits`) without reading it.
pub struct ListEntry {
    pub user_id: u64,
    pub anime_id: u64,
    pub anime_score_bits: u64,
    pub is_favourite: bool,
    pub notes: Option<String>,
    pub rewatches: i64,
    pub completion_status: String,
    pub anime_names: Title,
    pub user_name: String,
    pub user_score_type: ScoreType,
}

/// One anime of a user's list. The score is carried as the bit pattern of
/// the floating-point score AniList reports (`f64::to_bits`).
pub struct UserAnimeInfo {
    pub anime_id: u64,
    pub titles: Title,
    pub score_bits: u64,
    pub favourite: bool,
    pub notes: Option<String>,
    pub status: AnimeStatus,
    pub repeats: u64,
}

/// The titles of an anime, in the three languages AniList gives.
pub struct Title {
    pub romaji: Option<String>,
    pub native: Option<String>,
    pub english: Option<String>,
}

/// One piece of information that the guessing game can reveal.
pub enum Hint {
    Season(String),
    SeasonYear(u64),
    Format(String),
    Genres(Vec<String>),
    Studios(Vec<String>),
    VoiceActors(Vec<String>),
    Tag(Vec<Tag>),
    Staff(Vec<Staff>),
    AverageScore(u64),
    Source(String),
    UserScore(u64),
}

/// The anime of a round of the guessing game.
pub struct AnimeGuess {
    pub id: u64,
    pub synonyms: Vec<String>,
    pub hints: Vec<Hint>,
}

/// The measures the compatibility check offers.
#[derive(PartialEq, Eq, Structural, Clone, Copy, Debug)]
pub enum SimilarityMeasure {
    CosineSim,
    MeanAbsoluteDifferenceNorm,
    MeanAbsoluteDifference,
}

/// An anime of a list with the score (0..=100) the user gave it.
#[derive(PartialEq, Eq, Structural, Clone, Copy, Debug)]
pub struct AnimeScored {
    pub id: u64,
    pub score: u64,
}

/// The hints of a game, as stored in the database.
pub struct HintWrapper {
    pub hints: Vec<Hint>,
}

/// A list of strings, as stored in the database.
pub struct StringVecWrapper {
    pub stringvec: Vec<String>,
}

/// The abstract value of a tag.
pub struct TagView {
    pub name: Seq<char>,
    pub rank: u64,
}

/// The abstract value of a staff member.
pub struct StaffView {
    pub name: Seq<char>,
    pub role: Seq<char>,
}

/// The abstract value of a hint: strings as character sequences, lists as sequences.
pub enum HintView {
    Season(Seq<char>),
    SeasonYear(u64),
    Format(Seq<char>),
    Genres(Seq<Seq<char>>),
    Studios(Seq<Seq<char>>),
    VoiceActors(Seq<Seq<char>>),
    Tag(Seq<TagView>),
    Staff(Seq<StaffView>),
    AverageScore(u64),
    Source(Seq<char>),
    UserScore(u64),
}

impl View for Tag {
    type V = TagView;

    open spec fn view(&self) -> TagView {
        TagView { name: self.name@, rank: self.rank }
    }
}

impl View for Staff {
    type V = StaffView;

    open spec fn view(&self) -> StaffView {
        StaffView { name: self.name@, role: self.role@ }
    }
}

/// The character sequences of a sequence of strings.
pub open spec fn strings_view(s: Seq<String>) -> Seq<Seq<char>> {
    s.map_values(|x: String| x@)
}

/// The abstract values of a sequence of tags.
pub open spec fn tags_view(s: Seq<Tag>) -> Seq<TagView> {
    s.map_values(|x: Tag| x@)
}

/// The abstract values of a sequence of staff members.
pub open spec fn staff_view(s: Seq<Staff>) -> Seq<StaffView> {
    s.map_values(|x: Staff| x@)
}

impl View for Hint {
    type V = HintView;

    open spec fn view(&self) -> HintView {
        match self {
            Hint::Season(s) => HintView::Season(s@),
            Hint::SeasonYear(y) => HintView::SeasonYear(*y),
            Hint::Format(s) => HintView::Format(s@),
            Hint::Genres(v) => HintView::Genres(strings_view(v@)),
            Hint::Studios(v) => HintView::Studios(strings_view(v@)),
            Hint::VoiceActors(v) => HintView::VoiceActors(strings_view(v@)),
            Hint::Tag(v) => HintView::Tag(tags_view(v@)),
            Hint::Staff(v) => HintView::Staff(staff_view(v@)),
            Hint::AverageScore(x) => HintView::AverageScore(*x),
            Hint::Source(s) => HintView::Source(s@),
            Hint::UserScore(x) => HintView::UserScore(*x),
        }
    }
}

/// The name under which a user asks for a kind of hint.
pub open spec fn view_kind_name(h: HintView) -> Seq<char> {
    match h {
        HintView::Season(_) => "Season"@,
        HintView::SeasonYear(_) => "Year"@,
        HintView::Format(_) => "Format"@,
        HintView::Genres(_) => "Genre"@,
        HintView::Studios(_) => "Studio"@,
        HintView::VoiceActors(_) => "Voice Actor"@,
        HintView::Tag(_) => "Tag"@,
        HintView::Staff(_) => "Staff"@,
        HintView::AverageScore(_) => "AL Score"@,
        HintView::Source(_) => "Source"@,
        HintView::UserScore(_) => "User Score"@,
    }
}

/// The abstract values of a sequence of hints.
pub open spec fn hints_view(s: Seq<Hint>) -> Seq<HintView> {
    s.map_values(|h: Hint| h@)
}

} // verus!
