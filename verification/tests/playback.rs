use std::sync::Arc;

use y4music::commands::playback::{
    added_message, clamp_volume, clear, empty_queue_message, enqueue_known_raw,
    enqueue_multiple_known, ensure_call_raw, join, leave, loop_cmd, loop_message, next_message,
    nowplaying, nowplaying_reply, play, playnext, queue, resolve_and_build_track,
    resolve_eq_filter, resolve_saved_volume, resolve_target_bitrate, seek, shuffle, skip, stop,
    stop_message, user_voice_channel, AuxMetadata, Handler, LoopModeChoice, Requester,
};
use y4music::discord::Colour;
use y4music::models::{PlaylistTrack, UserProfile};
use y4music::player::events::{PanelUpdater, PanelUpdaterKind};
use y4music::player::panel::CloneStep;
use y4music::player::state::{GuildPlayerState, LoopMode, TrackMeta};
use y4music::time::Duration;

fn profile(default_volume: i64, mode: &str) -> UserProfile {
    UserProfile { user_id: 1, default_volume, default_eq_mode: mode.to_string() }
}

fn requester() -> Requester {
    Requester {
        user_id: 42,
        name: "Ann".to_string(),
        volume_pct: 80,
        eq_filter: Some("anull".to_string()),
    }
}

fn meta(title: &str, secs: Option<u64>) -> TrackMeta {
    TrackMeta {
        title: title.to_string(),
        url: format!("https://e/{title}"),
        requested_by: 42,
        duration: secs.map(Duration::from_secs),
        eq_filter: None,
        thumbnail: None,
        uploader: None,
        requester_name: "Ann".to_string(),
        start_offset: Duration::zero(),
        is_seek: false,
        is_loop_clone: false,
    }
}

#[test]
fn saved_volumes_stay_within_range() {
    assert_eq!(resolve_saved_volume(Some(&profile(55, "balanced"))), 55);
    assert_eq!(resolve_saved_volume(Some(&profile(-3, "balanced"))), 0);
    assert_eq!(resolve_saved_volume(Some(&profile(201, "balanced"))), 200);
    assert_eq!(resolve_saved_volume(None), 100);
    assert_eq!(clamp_volume(i64::MAX), 200);
    assert_eq!(clamp_volume(i64::MIN), 0);
}

#[test]
fn only_hifi_has_a_filter_of_its_own() {
    assert_eq!(resolve_eq_filter(Some(&profile(1, "hifi")), "f").as_deref(), Some("f"));
    assert_eq!(resolve_eq_filter(Some(&profile(1, "balanced")), "f"), None);
    assert_eq!(resolve_eq_filter(Some(&profile(1, "HIFI")), "f"), None);
    assert_eq!(resolve_eq_filter(None, "f"), None);
}

#[test]
fn the_invoker_has_to_be_in_a_voice_channel() {
    assert_eq!(user_voice_channel(true, Some(5)), Ok(5));
    assert_eq!(
        user_voice_channel(true, None),
        Err("You must be in a voice channel first.".to_string())
    );
    assert_eq!(
        user_voice_channel(false, Some(5)),
        Err("This command can only be used in a server.".to_string())
    );
}

#[test]
fn the_channel_s_own_bit_rate_is_used() {
    assert_eq!(resolve_target_bitrate(Some(96_000), Some(64_000)), Some(96_000));
    assert_eq!(resolve_target_bitrate(None, Some(64_000)), Some(64_000));
    assert_eq!(resolve_target_bitrate(None, None), None);
    for bps in [0, i32::MAX as u32, i32::MAX as u32 + 1, u32::MAX] {
        assert_eq!(resolve_target_bitrate(Some(bps), None), Some(bps as i32));
    }
}

#[test]
fn handlers_are_registered_once_with_the_loop_before_the_panel() {
    let mut state = GuildPlayerState::default();
    assert_eq!(
        ensure_call_raw(&mut state, 9),
        [
            Handler::Panel(PanelUpdater { kind: PanelUpdaterKind::Play }),
            Handler::Loop,
            Handler::Panel(PanelUpdater { kind: PanelUpdaterKind::End }),
            Handler::Errors,
        ]
    );
    assert_eq!(state.text_channel, Some(9));
    assert!(ensure_call_raw(&mut state, 10).is_empty());
    assert_eq!(state.text_channel, Some(10));
    assert!(state.panel_events_registered);
}

#[test]
fn known_tracks_are_planned_for_their_requester() {
    let planned = enqueue_known_raw(
        &vec!["--x".to_string()],
        "https://youtu.be/abc",
        "Song",
        95,
        Some("Band".to_string()),
        &requester(),
    );
    assert_eq!(planned.volume_pct, 80);
    assert_eq!(planned.source.url, "https://youtu.be/abc");
    assert_eq!(planned.source.ytdlp_extra_args, ["--x"]);
    assert_eq!(planned.source.eq_filter.as_deref(), Some("anull"));
    assert_eq!(planned.source.seek_time, None);
    assert_eq!(planned.meta.title, "Song");
    assert_eq!(planned.meta.requested_by, 42);
    assert_eq!(planned.meta.requester_name, "Ann");
    assert_eq!(planned.meta.duration, Some(Duration::from_secs(95)));
    assert_eq!(
        planned.meta.thumbnail.as_deref(),
        Some("https://i.ytimg.com/vi/abc/hqdefault.jpg")
    );
    assert_eq!(planned.meta.uploader.as_deref(), Some("Band"));
    assert!(!planned.meta.is_seek && !planned.meta.is_loop_clone);
    let live = enqueue_known_raw(&vec![], "https://e/x", "Live", 0, None, &requester());
    assert_eq!(live.meta.duration, None);
    assert_eq!(live.meta.thumbnail, None);
}

#[test]
fn stored_playlists_are_planned_in_order() {
    let tracks: Vec<PlaylistTrack> = (0..3)
        .map(|i| PlaylistTrack {
            id: i,
            playlist_id: 1,
            url: format!("https://e/{i}"),
            title: format!("Song {i}"),
            uploader: None,
            duration: 10 * i,
            added_order: i,
        })
        .collect();
    let planned = enqueue_multiple_known(&vec![], &tracks, &requester());
    assert_eq!(planned.len(), 3);
    assert_eq!(planned[2].meta.title, "Song 2");
    assert_eq!(planned[2].meta.duration, Some(Duration::from_secs(20)));
    assert_eq!(planned[0].meta.duration, None);
    assert_eq!(planned[1].source.url, "https://e/1");
}

#[test]
fn looked_up_metadata_is_preferred() {
    let aux = AuxMetadata {
        title: Some("Reported".to_string()),
        duration: Some(Duration::from_secs(9)),
        thumbnail: Some("https://i/r.jpg".to_string()),
        channel: Some("Channel".to_string()),
        artist: Some("Artist".to_string()),
    };
    let planned =
        resolve_and_build_track("https://youtu.be/abc", Some(&aux), &requester(), &vec![]);
    assert_eq!(planned.meta.title, "Reported");
    assert_eq!(planned.meta.duration, Some(Duration::from_secs(9)));
    assert_eq!(planned.meta.thumbnail.as_deref(), Some("https://i/r.jpg"));
    assert_eq!(planned.meta.uploader.as_deref(), Some("Channel"));
}

#[test]
fn missing_metadata_falls_back() {
    let aux = AuxMetadata {
        title: None,
        duration: None,
        thumbnail: None,
        channel: None,
        artist: Some("Artist".to_string()),
    };
    let planned =
        resolve_and_build_track("https://youtu.be/abc", Some(&aux), &requester(), &vec![]);
    assert_eq!(planned.meta.title, "https://youtu.be/abc");
    assert_eq!(planned.meta.uploader.as_deref(), Some("Artist"));
    assert_eq!(
        planned.meta.thumbnail.as_deref(),
        Some("https://i.ytimg.com/vi/abc/hqdefault.jpg")
    );
    let nothing = resolve_and_build_track("https://e/x", None, &requester(), &vec![]);
    assert_eq!(nothing.meta.title, "https://e/x");
    assert_eq!(nothing.meta.uploader, None);
    assert_eq!(nothing.meta.thumbnail, None);
}

#[test]
fn only_direct_urls_are_played() {
    assert_eq!(play("https://e/x"), None);
    assert_eq!(play("http://e/x"), None);
    assert_eq!(
        play("lofi beats"),
        Some("❌ `/play` currently only accepts a direct URL. Keyword search is coming in a later phase.")
    );
    assert_eq!(playnext("http://e/x"), None);
    assert_eq!(
        playnext("ftp://e/x"),
        Some("❌ `/playnext` currently only accepts a direct URL.")
    );
    assert_eq!(added_message("Song"), "✅ Added **Song** to the queue.");
    assert_eq!(next_message("Song"), "⏭️ **Song** will play next.");
}

#[test]
fn playback_commands_are_answered() {
    assert_eq!(join(77), "🔊 Connected to <#77>.");
    assert_eq!(leave(true), "👋 Disconnected from the voice channel.");
    assert_eq!(leave(false), "The bot is not in a voice channel.");
    assert_eq!(shuffle(None), "The queue is empty.");
    assert_eq!(shuffle(Some(0)), "There's nothing queued up next to shuffle.");
    assert_eq!(shuffle(Some(4)), "🔀 Shuffled 4 upcoming track(s).");
    assert_eq!(clear(None), "The queue is empty.");
    assert_eq!(clear(Some(0)), "The queue is already empty.");
    assert_eq!(
        clear(Some(12)),
        "🗑️ Cleared 12 track(s) from the queue. The current track keeps playing."
    );
    assert_eq!(seek(None), "Nothing is playing.");
    assert_eq!(seek(Some(&Ok(Duration::from_secs(65)))), "⏩ Seeked to 01:05.");
    assert_eq!(seek(Some(&Err("Nothing is playing.".to_string()))), "⚠️ Nothing is playing.");
    assert_eq!(stop_message(true), "⏹️ Stopped playback and cleared the queue.");
    assert_eq!(stop_message(false), "There is nothing to stop.");
    assert_eq!(skip(Some("Song")), "⏭️ Skipped **Song**.");
    assert_eq!(skip(None), "There is nothing to skip.");
}

#[test]
fn stopping_turns_the_loop_off() {
    let mut state = GuildPlayerState {
        loop_mode: LoopMode::Track,
        progress_ticker: Some(3),
        ..GuildPlayerState::default()
    };
    assert_eq!(stop(&mut state, None), Some(3));
    assert_eq!(state.loop_mode, LoopMode::Off);
    assert_eq!(state.progress_ticker, None);
}

#[test]
fn loop_modes_are_chosen() {
    let mut state = GuildPlayerState::default();
    assert_eq!(
        loop_cmd(LoopModeChoice::Track, Some(&mut state)),
        Some((LoopMode::Track, CloneStep::Ensure))
    );
    assert_eq!(state.loop_mode, LoopMode::Track);
    assert_eq!(
        loop_cmd(LoopModeChoice::Queue, Some(&mut state)),
        Some((LoopMode::Queue, CloneStep::Remove))
    );
    assert_eq!(loop_cmd(LoopModeChoice::Off, None), None);
    assert_eq!(LoopMode::from(LoopModeChoice::Off), LoopMode::Off);
    assert_eq!(loop_message(Some(LoopMode::Queue)), "✅ Loop mode set to **Loop: Queue**.");
    assert_eq!(loop_message(None), "Please start playback before setting a loop mode.");
}

#[test]
fn queues_are_listed() {
    let current = meta("a", Some(3_600));
    let mut clone = meta("a", Some(61));
    clone.is_loop_clone = true;
    let listing = queue(&vec![
        Arc::new(current),
        Arc::new(clone),
        Arc::new(meta("b", None)),
    ])
    .expect("a queue to list");
    assert_eq!(
        listing.lines,
        [
            "**Now Playing:**\n[a](https://e/a)\n\n**Up Next:**",
            "`1.` 🔁 [a](https://e/a) *(Loop)*",
            "`2.` [b](https://e/b)",
        ]
    );
    assert_eq!(listing.title, "🎵 Music Queue");
    assert_eq!(listing.color, Colour::Blue);
    assert_eq!(listing.footer, "3 song(s) in queue  •  Total duration: 01:01:01");
    assert!(!listing.ephemeral);
}

#[test]
fn a_lone_track_has_nothing_behind_it() {
    let mut clone = meta("a", Some(90));
    clone.is_loop_clone = true;
    let listing = queue(&vec![Arc::new(clone)]).expect("a queue to list");
    assert_eq!(
        listing.lines,
        [
            "**Now Playing:**\n🔁 [a](https://e/a) *(Loop)*\n\n**Up Next:**",
            "*Nothing queued up next.*",
        ]
    );
    assert_eq!(queue(&vec![]), None);
    assert_eq!(empty_queue_message(), "The queue is empty.");
}

#[test]
fn the_panel_moves_to_where_it_was_asked_for() {
    let mut state = GuildPlayerState {
        text_channel: Some(1),
        now_playing_message: Some(2),
        ..GuildPlayerState::default()
    };
    assert_eq!(nowplaying(&mut state, 5), Some((2, 1)));
    assert_eq!(state.text_channel, Some(5));
    assert_eq!(state.now_playing_message, None);
    assert_eq!(nowplaying(&mut state, 6), None);
    let moved = nowplaying_reply(true);
    assert_eq!(moved.content, "✅ Panel moved to the bottom.");
    assert!(moved.ephemeral);
    assert_eq!(nowplaying_reply(false).content, "There is no music currently playing.");
}
