pub mod text;
pub mod types;
pub mod helpers;
pub mod sorting;
pub mod anime_guessing_game;
pub mod compat_check;
pub mod team_swapping;
pub mod server_list;
pub mod anime_year_duration;
pub mod anime_guessing_helpers;
