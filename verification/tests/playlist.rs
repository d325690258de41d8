use y4music::models::{Collaborator, Playlist, PlaylistTrack, UserProfile};
use y4music::playlist::{
    add_collaborator_role, add_collaborator_user, create, create_message, has_permission,
    import_tracks_from_stream, insert_chunk, move_track, remove_track, track_offset, CreateStep,
    Import, Removal, Scope, MAX_BULK_ADD,
};
use y4music::ytdlp::TrackInfo;

fn track(i: usize) -> TrackInfo {
    TrackInfo {
        title: format!("Song {i}"),
        uploader: Some(format!("Band {i}")),
        duration: i as i64,
        webpage_url: format!("https://youtu.be/{i}"),
        thumbnail: None,
    }
}

fn import(n: usize) -> Import {
    let mut import = Import::new();
    for i in 0..n {
        if import.finished {
            break;
        }
        import.receive(Some(track(i)));
    }
    import.receive(None);
    import
}

fn playlist(owner_id: i64) -> Playlist {
    Playlist {
        id: 1,
        name: "mine".to_string(),
        owner_id,
        guild_id: Some(5),
        scope: "server".to_string(),
        locked: true,
    }
}

fn user(user_id: i64) -> Collaborator {
    Collaborator { id: 0, playlist_id: 1, user_id: Some(user_id), role_id: None }
}

fn role(role_id: i64) -> Collaborator {
    Collaborator { id: 0, playlist_id: 1, user_id: None, role_id: Some(role_id) }
}

#[test]
fn scopes_have_names() {
    assert_eq!(Scope::Solo.as_str(), "solo");
    assert_eq!(Scope::Server.as_str(), "server");
}

#[test]
fn new_users_get_the_defaults() {
    let profile = UserProfile::default_for(7);
    assert_eq!(profile.user_id, 7);
    assert_eq!(profile.default_volume, 100);
    assert_eq!(profile.default_eq_mode, "balanced");
}

#[test]
fn playlists_are_created_for_their_owner() {
    assert_eq!(
        create(Scope::Solo, "mine", 10, 99, false),
        CreateStep::Insert { owner_id: 10, guild_id: None }
    );
    assert_eq!(
        create(Scope::Server, "ours", 10, 99, false),
        CreateStep::Insert { owner_id: 99, guild_id: Some(10) }
    );
    let taken = "❌ A playlist named 'mine' already exists.".to_string();
    assert_eq!(create(Scope::Solo, "mine", 10, 10, true), CreateStep::Refuse(taken.clone()));
    assert_eq!(create_message("mine", true), taken);
    assert_eq!(create_message("mine", false), "✅ Created playlist 'mine'.");
}

#[test]
fn imports_take_every_track_up_to_the_cap() {
    for (n, imported, truncated) in [
        (0, 0, false),
        (3, 3, false),
        (MAX_BULK_ADD, 1000, false),
        (MAX_BULK_ADD + 1, 1000, true),
        (MAX_BULK_ADD + 50, 1000, true),
    ] {
        let done = import(n);
        assert!(done.finished);
        let result = done.result();
        assert_eq!((result.imported, result.truncated), (imported, truncated), "{n} tracks");
        assert!(done.tracks.iter().enumerate().all(|(i, t)| *t == track(i)));
    }
}

#[test]
fn a_finished_import_takes_no_more() {
    let mut done = import(2);
    done.receive(Some(track(2)));
    assert_eq!(done.result().imported, 2);
}

#[test]
fn imported_rows_are_numbered_consecutively_in_chunks() {
    let tracks: Vec<TrackInfo> = (0..250).map(track).collect();
    let chunks = import_tracks_from_stream(9, &tracks, 40);
    assert_eq!(chunks.iter().map(Vec::len).collect::<Vec<_>>(), [100, 100, 50]);
    for (i, row) in chunks.iter().flatten().enumerate() {
        assert_eq!(row.playlist_id, 9);
        assert_eq!(row.added_order, 40 + i as i64);
        assert_eq!(row.title, format!("Song {i}"));
        assert_eq!(row.url, format!("https://youtu.be/{i}"));
        assert_eq!(row.uploader, Some(format!("Band {i}")));
        assert_eq!(row.duration, i as i64);
    }
    assert!(import_tracks_from_stream(9, &vec![], 0).is_empty());
    assert_eq!(import_tracks_from_stream(9, &tracks[..100].to_vec(), 0).len(), 1);
    assert_eq!(insert_chunk(9, &tracks, 3, 5, 7).len(), 2);
}

#[test]
fn removals_close_the_gap() {
    assert_eq!(track_offset(1), Some(0));
    assert_eq!(track_offset(12), Some(11));
    assert_eq!(track_offset(0), None);
    assert_eq!(track_offset(i64::MIN), None);
    let removed = PlaylistTrack {
        id: 33,
        playlist_id: 9,
        url: String::new(),
        title: String::new(),
        uploader: None,
        duration: 0,
        added_order: 4,
    };
    assert_eq!(remove_track(&removed), Removal { id: 33, playlist_id: 9, above: 4 });
}

#[test]
fn tracks_are_moved_by_their_numbers() {
    let ids = vec![10, 11, 12, 13];
    assert_eq!(move_track(ids.clone(), 1, 3), Some(vec![11, 12, 10, 13]));
    assert_eq!(move_track(ids.clone(), 4, 1), Some(vec![13, 10, 11, 12]));
    assert_eq!(move_track(ids.clone(), 2, 2), Some(ids.clone()));
    for (from, to) in [(0, 1), (1, 0), (5, 1), (1, 5), (-1, 2), (i64::MIN, 1), (1, i64::MAX)] {
        assert_eq!(move_track(ids.clone(), from, to), None, "{from} to {to}");
    }
    assert_eq!(move_track(vec![], 1, 1), None);
}

#[test]
fn moving_back_undoes_a_move() {
    let ids: Vec<i64> = (0..6).collect();
    for from in 1..=6 {
        for to in 1..=6 {
            let there = move_track(ids.clone(), from, to).expect("in range");
            assert_eq!(there[to as usize - 1], ids[from as usize - 1]);
            assert_eq!(move_track(there, to, from), Some(ids.clone()));
        }
    }
}

#[test]
fn owners_and_collaborators_have_permission() {
    let p = playlist(1);
    let collaborators = vec![user(2), role(70)];
    assert!(has_permission(&p, 1, &vec![], &vec![]));
    assert!(has_permission(&p, 2, &vec![], &collaborators));
    assert!(has_permission(&p, 3, &vec![69, 70], &collaborators));
    assert!(!has_permission(&p, 3, &vec![69], &collaborators));
    assert!(!has_permission(&p, 70, &vec![2], &collaborators));
    assert!(!has_permission(&p, 2, &vec![], &vec![]));
}

#[test]
fn collaborators_are_added_once() {
    let existing = vec![user(2), role(70)];
    assert!(!add_collaborator_user(&existing, 2));
    assert!(add_collaborator_user(&existing, 70));
    assert!(!add_collaborator_role(&existing, 70));
    assert!(add_collaborator_role(&existing, 2));
    assert!(add_collaborator_user(&vec![], 2));
}

#[test]
fn a_transfer_takes_only_the_old_owners_permission() {
    let entry = |id, user_id, role_id| Collaborator { id, playlist_id: 1, user_id, role_id };
    let left = vec![entry(2, Some(4), None), entry(3, None, Some(70))];
    let p = playlist(2);
    assert!(has_permission(&p, 2, &vec![], &left));
    assert!(has_permission(&p, 4, &vec![], &left));
    assert!(has_permission(&p, 3, &vec![70], &left));
    assert!(!has_permission(&p, 1, &vec![], &left));
}
