//! A self-hosted music bot's decisions, apart from its I/O.

pub mod audio_source;
pub mod commands;
pub mod config;
pub mod discord;
pub mod double;
pub mod eq;
pub mod json;
pub mod models;
pub mod pagination;
pub mod player;
pub mod playlist;
pub mod text;
pub mod time;
pub mod ytdlp;
