pub mod get_user_list;

pub mod embed_helpers;
pub mod get_favs;
