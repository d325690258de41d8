//! The slash commands: what each one decides, and what it answers.

pub mod playback;
pub mod playlist;
pub mod profile;
pub mod search;
pub mod server_playlist;
