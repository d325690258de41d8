use y4music::commands::playlist::{
    missing_message, no_playlists_message, playlist_add, playlist_create, playlist_delete,
    playlist_move, playlist_play, playlist_remove_track, playlist_rename, playlist_show,
    playlist_show_all, queued_message, rename_message, Summary,
};
use y4music::commands::profile::{eq, show, volume, EqMode};
use y4music::commands::server_playlist;
use y4music::commands::server_playlist::{
    find_owned, find_permitted, find_writable, may_add_role, may_add_user, may_delete, may_lock,
    may_remove_role, may_remove_track, may_remove_user, may_rename, serverplaylist_add_role, serverplaylist_add_user,
    serverplaylist_create, serverplaylist_delete, serverplaylist_lock, serverplaylist_move,
    serverplaylist_play, serverplaylist_remove_role, serverplaylist_remove_track,
    serverplaylist_remove_user, serverplaylist_rename, serverplaylist_show,
    serverplaylist_show_all, serverplaylist_transfer, transfer_message, Member, SharedSummary,
};
use y4music::discord::Colour;
use y4music::models::{Collaborator, Playlist, PlaylistTrack, UserProfile};
use y4music::playlist::ImportResult;

fn track(i: i64) -> PlaylistTrack {
    PlaylistTrack {
        id: i,
        playlist_id: 1,
        url: format!("https://e/{i}"),
        title: format!("Song {i}"),
        uploader: None,
        duration: 10,
        added_order: i,
    }
}

fn playlist(locked: bool) -> Playlist {
    Playlist {
        id: 1,
        name: "ours".to_string(),
        owner_id: 1,
        guild_id: Some(5),
        scope: "server".to_string(),
        locked,
    }
}

fn member(user_id: i64) -> Member {
    Member { user_id, role_ids: vec![70], is_admin: false }
}

fn admin(user_id: i64) -> Member {
    Member { user_id, role_ids: vec![], is_admin: true }
}

fn helper(user_id: i64) -> Vec<Collaborator> {
    vec![Collaborator { id: 0, playlist_id: 1, user_id: Some(user_id), role_id: None }]
}

#[test]
fn imports_are_reported() {
    let report = |imported, truncated| {
        playlist_add("mine", &ImportResult { imported, truncated }, &Ok(()))
    };
    assert_eq!(report(1, false), "✅ Added 1 track to playlist 'mine'.");
    assert_eq!(report(2, false), "✅ Added 2 tracks to playlist 'mine'.");
    assert_eq!(
        report(1000, true),
        "✅ Added 1000 tracks to playlist 'mine'.\n⚠️ This source has more than 1000 tracks; only the first 1000 were added."
    );
    assert_eq!(report(0, false), "❌ No addable tracks were found for that URL.");
    assert_eq!(
        playlist_add(
            "mine",
            &ImportResult { imported: 0, truncated: false },
            &Err("yt-dlp exited with an error; some tracks may be missing.".to_string()),
        ),
        "yt-dlp exited with an error; some tracks may be missing."
    );
}

#[test]
fn personal_playlists_are_answered_for() {
    let created = playlist_create("✅ Created playlist 'mine'.".to_string());
    assert_eq!(created.content, "✅ Created playlist 'mine'.");
    assert!(created.ephemeral);
    assert_eq!(missing_message("x"), "❌ Playlist 'x' not found.");
    assert_eq!(playlist_play("x", Some(&vec![track(0)])), None);
    let empty = Some("❌ Playlist 'x' not found or is empty.".to_string());
    assert_eq!(playlist_play("x", Some(&vec![])), empty);
    assert_eq!(playlist_play("x", None), empty);
    assert_eq!(queued_message(3, "x"), "🔄 Queued 3 tracks from playlist 'x'.");
    assert_eq!(playlist_delete("x", true), "✅ Deleted playlist 'x'.");
    assert_eq!(playlist_delete("x", false), "❌ Playlist 'x' not found.");
    assert_eq!(playlist_remove_track(Some("Song")), "🗑️ Removed **Song** from the queue.");
    assert_eq!(playlist_remove_track(None), "❌ Invalid number.");
    assert_eq!(playlist_move(true, 4), "✅ Moved track to position 4.");
    assert_eq!(
        playlist_move(false, -4),
        "❌ Invalid number. Check the 'from' and 'to' positions."
    );
    assert_eq!(playlist_rename("a", "b", true, false), None);
    assert_eq!(
        playlist_rename("a", "b", false, true).as_deref(),
        Some("❌ Playlist 'a' not found.")
    );
    assert_eq!(
        playlist_rename("a", "b", true, true).as_deref(),
        Some("❌ A playlist named 'b' already exists.")
    );
    assert_eq!(rename_message("a", "b", true), "✅ Renamed playlist from 'a' to 'b'.");
    assert_eq!(rename_message("a", "b", false), "❌ A playlist named 'b' already exists.");
}

#[test]
fn personal_playlists_are_listed() {
    let all = playlist_show_all(
        "Ann",
        &vec![
            Summary { name: "chill".to_string(), tracks: 3 },
            Summary { name: "work".to_string(), tracks: 0 },
        ],
    )
    .expect("playlists to list");
    assert_eq!(all.title, "Ann's Playlists");
    assert_eq!(all.color, Colour::Purple);
    assert_eq!(all.lines, ["📁 **chill** (3 tracks)", "📁 **work** (0 tracks)"]);
    assert_eq!(all.footer, "Total 2 playlists");
    assert!(all.ephemeral);
    assert_eq!(playlist_show_all("Ann", &vec![]), None);
    assert_eq!(no_playlists_message(), "You have no personal playlists.");
    let one = playlist_show("chill", Some(&vec![track(0), track(1)])).expect("a playlist");
    assert_eq!(one.title, "Playlist: chill");
    assert_eq!(one.lines, ["`1.` **Song 0**", "`2.` **Song 1**"]);
    assert_eq!(one.footer, "Total 2 tracks");
    assert_eq!(playlist_show("x", None), Err("❌ Playlist 'x' not found.".to_string()));
}

#[test]
fn locked_playlists_are_for_owners_and_collaborators() {
    let open = playlist(false);
    let locked = playlist(true);
    assert_eq!(find_writable("ours", Some(&open), &member(9), &vec![]), None);
    assert_eq!(find_writable("ours", Some(&locked), &member(1), &vec![]), None);
    assert_eq!(find_writable("ours", Some(&locked), &member(2), &helper(2)), None);
    assert_eq!(
        find_writable("ours", Some(&locked), &member(9), &helper(2)).as_deref(),
        Some("❌ This playlist is locked. Only the owner or collaborators can modify it.")
    );
    assert_eq!(
        find_writable("x", None, &member(1), &vec![]).as_deref(),
        Some("❌ Shared playlist 'x' not found.")
    );
}

#[test]
fn some_actions_are_for_owners() {
    let p = playlist(false);
    assert_eq!(find_owned("ours", Some(&p), &member(1), false), None);
    assert_eq!(find_owned("ours", Some(&p), &admin(9), true), None);
    assert_eq!(
        find_owned("ours", Some(&p), &admin(9), false).as_deref(),
        Some("❌ This action can only be performed by the playlist owner.")
    );
    assert_eq!(
        find_owned("ours", Some(&p), &member(9), true).as_deref(),
        Some("❌ This action can only be performed by the playlist owner or a server administrator.")
    );
    assert_eq!(
        find_owned("x", None, &member(1), false).as_deref(),
        Some("❌ Playlist 'x' not found.")
    );
    assert_eq!(serverplaylist_move("ours", Some(&p), &member(1)), None);
    assert_eq!(
        serverplaylist_move("ours", Some(&p), &member(2)).as_deref(),
        Some("❌ This action can only be performed by the playlist owner.")
    );
}

#[test]
fn removing_tracks_takes_permission_even_when_unlocked() {
    let p = playlist(false);
    assert_eq!(find_permitted("ours", Some(&p), &member(1), &vec![]), None);
    assert_eq!(find_permitted("ours", Some(&p), &member(2), &helper(2)), None);
    let role = vec![Collaborator { id: 0, playlist_id: 1, user_id: None, role_id: Some(70) }];
    assert_eq!(find_permitted("ours", Some(&p), &member(3), &role), None);
    assert_eq!(
        find_permitted("ours", Some(&p), &member(3), &helper(2)).as_deref(),
        Some("❌ This action can only be performed by the playlist owner or a collaborator.")
    );
    assert_eq!(
        find_permitted("x", None, &member(1), &vec![]).as_deref(),
        Some("❌ Playlist 'x' not found.")
    );
}

#[test]
fn shared_playlists_are_listed() {
    let all = serverplaylist_show_all(
        "Home",
        &vec![
            SharedSummary { name: "party".to_string(), owner_id: 12, locked: true, tracks: 4 },
            SharedSummary { name: "chill".to_string(), owner_id: 13, locked: false, tracks: 0 },
        ],
    )
    .expect("playlists to list");
    assert_eq!(all.title, "Shared Playlists in 'Home'");
    assert_eq!(all.color, Colour::Orange);
    assert_eq!(
        all.lines,
        [
            "📁 **party** 🔐\n> Owner: <@12>, Tracks: 4",
            "📁 **chill**\n> Owner: <@13>, Tracks: 0",
        ]
    );
    assert_eq!(all.footer, "Total 2 playlists");
    assert_eq!(serverplaylist_show_all("Home", &vec![]), None);
    assert_eq!(
        server_playlist::no_playlists_message(),
        "There are no shared playlists on this server yet."
    );
    let one = serverplaylist_show("party", Some(&vec![track(7)])).expect("a playlist");
    assert_eq!(one.title, "Server Playlist: party");
    assert_eq!(one.lines, ["`1.` **Song 7**"]);
    assert_eq!(
        serverplaylist_show("x", None),
        Err("❌ Shared playlist 'x' not found.".to_string())
    );
}

#[test]
fn shared_playlists_are_answered_for() {
    assert_eq!(serverplaylist_play("x", Some(&vec![track(0)])), None);
    let empty = Some("❌ Server playlist 'x' not found or is empty.".to_string());
    assert_eq!(serverplaylist_play("x", Some(&vec![])), empty);
    assert_eq!(serverplaylist_play("x", None), empty);
    assert_eq!(
        server_playlist::queued_message(3, "x"),
        "✅ Queued 3 tracks from the server playlist 'x'."
    );
    assert_eq!(serverplaylist_remove_track(Some("Song")), "🗑️ Removed **Song**.");
    assert_eq!(serverplaylist_remove_track(None), "❌ Invalid number.");
    assert_eq!(serverplaylist_create(&admin(1)), None);
    assert_eq!(
        serverplaylist_create(&member(1)),
        Some("❌ This command can only be used by server administrators.")
    );
    assert_eq!(serverplaylist_delete("x"), "✅ Deleted playlist 'x'.");
    assert_eq!(serverplaylist_rename("y", false), None);
    assert_eq!(
        serverplaylist_rename("y", true).as_deref(),
        Some("❌ A playlist named 'y' already exists.")
    );
    assert_eq!(serverplaylist_lock("x", true), "✅ Playlist 'x' is now locked 🔐.");
    assert_eq!(serverplaylist_lock("x", false), "✅ Playlist 'x' is now unlocked 🔓.");
}

#[test]
fn collaborators_are_announced() {
    assert_eq!(
        serverplaylist_add_user("x", 12, true),
        "✅ Added <@12> as a collaborator to 'x'."
    );
    assert_eq!(serverplaylist_add_user("x", 12, false), "ℹ️ <@12> is already a collaborator.");
    assert_eq!(
        serverplaylist_remove_user("x", 12, true),
        "✅ Removed <@12> from collaborators of 'x'."
    );
    assert_eq!(serverplaylist_remove_user("x", 12, false), "ℹ️ <@12> is not a collaborator.");
    assert_eq!(
        serverplaylist_add_role("x", "DJ", true),
        "✅ Added the role 'DJ' as a collaborator to 'x'."
    );
    assert_eq!(
        serverplaylist_add_role("x", "DJ", false),
        "ℹ️ The role 'DJ' is already a collaborator."
    );
    assert_eq!(
        serverplaylist_remove_role("x", "DJ", true),
        "✅ Removed the role 'DJ' from collaborators of 'x'."
    );
    assert_eq!(
        serverplaylist_remove_role("x", "DJ", false),
        "ℹ️ The role 'DJ' is not a collaborator."
    );
}

#[test]
fn ownership_goes_to_another_human() {
    let p = playlist(false);
    let transfer = |playlist: Option<&Playlist>, by: i64, to: i64, bot: bool| {
        serverplaylist_transfer("ours", playlist, &member(by), to, bot)
    };
    assert_eq!(transfer(Some(&p), 1, 2, false), None);
    assert_eq!(
        transfer(Some(&p), 1, 2, true).as_deref(),
        Some("❌ Cannot transfer ownership to a bot.")
    );
    assert_eq!(
        transfer(Some(&p), 1, 1, false).as_deref(),
        Some("ℹ️ You cannot transfer ownership to yourself.")
    );
    assert_eq!(
        transfer(Some(&p), 2, 3, false).as_deref(),
        Some("❌ This action can only be performed by the playlist owner.")
    );
    assert_eq!(
        transfer(None, 1, 2, false).as_deref(),
        Some("❌ Playlist 'ours' not found.")
    );
    assert_eq!(
        transfer_message("ours", 12),
        "✅ Transferred ownership of playlist 'ours' to <@12>."
    );
}

#[test]
fn profiles_are_shown_and_set() {
    let hifi = UserProfile { user_id: 1, default_volume: 80, default_eq_mode: "hifi".to_string() };
    let embed = show("Ann", &hifi);
    assert_eq!(embed.title, "Ann's Profile");
    assert_eq!(embed.description, "**🔊 Volume:** 80%\n**🎚️ EQ Mode:** 🎧 Hi-Fi");
    assert_eq!(embed.colour, Colour::Blurple);
    assert_eq!(
        show("Ann", &UserProfile::default_for(1)).description,
        "**🔊 Volume:** 100%\n**🎚️ EQ Mode:** 🎵 Balanced"
    );
    let set = volume(150);
    assert_eq!(set.content, "🔊 Volume set to **150%** and saved to your profile.");
    assert!(set.ephemeral);
    assert_eq!(EqMode::Balanced.as_str(), "balanced");
    assert_eq!(EqMode::Hifi.as_str(), "hifi");
    assert_eq!(EqMode::Balanced.label(), "🎵 Balanced");
    assert_eq!(
        eq(EqMode::Hifi).content,
        "✅ Sound quality mode set to **🎧 High quality (Hi-Fi)**. Applies starting with your next playback session."
    );
}

#[test]
fn each_command_is_for_those_it_is_meant_for() {
    let p = playlist(true);
    let owner_only = Some("❌ This action can only be performed by the playlist owner.");
    for may in [may_rename, may_lock, may_add_user, may_remove_user, may_add_role, may_remove_role] {
        assert_eq!(may("ours", Some(&p), &member(1)), None);
        assert_eq!(may("ours", Some(&p), &member(2)).as_deref(), owner_only);
        assert_eq!(may("ours", Some(&p), &admin(2)).as_deref(), owner_only);
        assert_eq!(may("x", None, &admin(1)).as_deref(), Some("❌ Playlist 'x' not found."));
    }
    assert_eq!(may_delete("ours", Some(&p), &member(1)), None);
    assert_eq!(may_delete("ours", Some(&p), &admin(2)), None);
    assert_eq!(
        may_delete("ours", Some(&p), &member(2)).as_deref(),
        Some("❌ This action can only be performed by the playlist owner or a server administrator.")
    );
    assert_eq!(
        may_delete("x", None, &admin(1)).as_deref(),
        Some("❌ Playlist 'x' not found.")
    );
    for p in [playlist(true), playlist(false)] {
        assert_eq!(may_remove_track("ours", Some(&p), &member(1), &vec![]), None);
        assert_eq!(may_remove_track("ours", Some(&p), &member(2), &helper(2)), None);
        assert_eq!(
            may_remove_track("ours", Some(&p), &admin(3), &helper(2)).as_deref(),
            Some("❌ This action can only be performed by the playlist owner or a collaborator.")
        );
    }
    assert_eq!(
        may_remove_track("x", None, &member(1), &vec![]).as_deref(),
        Some("❌ Playlist 'x' not found.")
    );
}
