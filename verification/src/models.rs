//! Plain data types shared across commands, one per database table.

use vstd::prelude::*;

verus! {

/// A user's saved playback preferences: a row of the `users` table.
#[derive(Debug, PartialEq, Eq)]
pub struct UserProfile {
    pub user_id: i64,
    pub default_volume: i64,
    pub default_eq_mode: String,
}

impl UserProfile {
    /// The settings a brand-new user gets before they've saved anything.
    pub fn default_for(user_id: i64) -> (profile: Self)
        ensures
            profile.user_id == user_id,
            profile.default_volume == 100,
            profile.default_eq_mode@ == "balanced"@,
    {
        UserProfile { user_id, default_volume: 100, default_eq_mode: "balanced".to_owned() }
    }
}

/// A personal ("solo") or shared ("server") playlist: a row of the
/// `playlists` table.
#[derive(Debug, PartialEq, Eq)]
pub struct Playlist {
    pub id: i64,
    pub name: String,
    pub owner_id: i64,
    pub guild_id: Option<i64>,
    pub scope: String,
    pub locked: bool,
}

/// A single track stored in a playlist.
#[derive(Debug, PartialEq, Eq)]
pub struct PlaylistTrack {
    pub id: i64,
    pub playlist_id: i64,
    pub url: String,
    pub title: String,
    pub uploader: Option<String>,
    pub duration: i64,
    pub added_order: i64,
}

impl Clone for PlaylistTrack {
    fn clone(&self) -> (copy: Self)
        ensures
            copy == *self,
    {
        PlaylistTrack {
            id: self.id,
            playlist_id: self.playlist_id,
            url: self.url.clone(),
            title: self.title.clone(),
            uploader: self.uploader.clone(),
            duration: self.duration,
            added_order: self.added_order,
        }
    }
}

/// A user or role granted write access to a locked server playlist. Exactly
/// one of `user_id` / `role_id` is set.
#[derive(Debug, Clone, Copy, PartialEq, Eq)]
pub struct Collaborator {
    pub id: i64,
    pub playlist_id: i64,
    pub user_id: Option<i64>,
    pub role_id: Option<i64>,
}

} // verus!
