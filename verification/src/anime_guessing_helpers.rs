pub mod staff;
pub mod studios;
pub mod voice_actors;
