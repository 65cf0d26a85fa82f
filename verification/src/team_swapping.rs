pub mod team_swap_utils;

pub mod claim;
pub mod create_team;
pub mod unclaim;
pub mod submit_anime;
pub mod membership;
pub mod status;
