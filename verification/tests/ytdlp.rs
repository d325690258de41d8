use y4music::json::parse_entry;
use y4music::ytdlp::{
    entry_to_track_info, is_mix, next_line_timeout, run_yt_dlp, search, search_args, spawn_error,
    step_for_entry, tracks_of, RunOutcome, StreamStep, TrackInfo, TrackStream,
};

fn finished(stdout: &str) -> RunOutcome {
    RunOutcome::Finished { success: true, stdout: stdout.to_string(), stderr: String::new() }
}

fn track(title: &str, url: &str) -> TrackInfo {
    TrackInfo {
        title: title.to_string(),
        uploader: None,
        duration: 0,
        webpage_url: url.to_string(),
        thumbnail: None,
    }
}

#[test]
fn a_full_entry_becomes_a_track() {
    let entry = parse_entry(
        r#"{"title": "Song", "uploader": "Band", "duration": 215, "id": "abc",
            "webpage_url": "https://example.com/watch", "thumbnail": "https://i/t.jpg"}"#,
    )
    .expect("well-formed JSON");
    assert_eq!(
        entry_to_track_info(&entry),
        Some(TrackInfo {
            title: "Song".to_string(),
            uploader: Some("Band".to_string()),
            duration: 215,
            webpage_url: "https://example.com/watch".to_string(),
            thumbnail: Some("https://i/t.jpg".to_string()),
        })
    );
}

#[test]
fn missing_fields_default_or_disqualify() {
    let by_id = parse_entry(r#"{"title": "Song", "id": "abc", "duration": 12.5}"#).unwrap();
    assert_eq!(
        entry_to_track_info(&by_id),
        Some(track("Song", "https://www.youtube.com/watch?v=abc"))
    );
    let untitled = parse_entry(r#"{"id": "abc"}"#).unwrap();
    assert_eq!(entry_to_track_info(&untitled), None);
    let nowhere = parse_entry(r#"{"title": "Song"}"#).unwrap();
    assert_eq!(entry_to_track_info(&nowhere), None);
    let list = parse_entry("[]").unwrap();
    assert_eq!(entry_to_track_info(&list), None);
}

#[test]
fn mixes_are_told_by_their_id() {
    assert!(is_mix(&parse_entry(r#"{"id": "RDabc"}"#).unwrap()));
    assert!(!is_mix(&parse_entry(r#"{"id": "rdabc"}"#).unwrap()));
    assert!(!is_mix(&parse_entry(r#"{"title": "RD"}"#).unwrap()));
}

#[test]
fn searching_skips_mixes_and_unusable_lines() {
    let stdout = "{\"title\": \"One\", \"id\": \"1\"}\n\nnot json\n\
{\"title\": \"Mix\", \"id\": \"RD2\"}\n{\"id\": \"3\"}\n{\"title\": \"Four\", \"id\": \"4\"}";
    assert_eq!(
        search(&finished(stdout), 20),
        Ok(vec![
            track("One", "https://www.youtube.com/watch?v=1"),
            track("Four", "https://www.youtube.com/watch?v=4"),
        ])
    );
    let entries = run_yt_dlp(&finished(stdout)).expect("a finished run");
    assert_eq!(entries.len(), 4);
    assert_eq!(tracks_of(&entries).len(), 2);
}

#[test]
fn a_search_returns_no_more_tracks_than_asked_for() {
    let stdout = "{\"title\": \"Mix\", \"id\": \"RD0\"}\n{\"title\": \"One\", \"id\": \"1\"}\n\
{\"title\": \"Two\", \"id\": \"2\"}\n{\"title\": \"Three\", \"id\": \"3\"}\n";
    let one = track("One", "https://www.youtube.com/watch?v=1");
    let two = track("Two", "https://www.youtube.com/watch?v=2");
    let three = track("Three", "https://www.youtube.com/watch?v=3");
    assert_eq!(search(&finished(stdout), 2), Ok(vec![one.clone(), two.clone()]));
    assert_eq!(search(&finished(stdout), 3), Ok(vec![one, two, three]));
    assert_eq!(search(&finished(stdout), 0), Ok(vec![]));
}

#[test]
fn streaming_hands_out_the_same_tracks_as_searching() {
    let stdout = "{\"title\": \"One\", \"id\": \"1\"}\n\n{\"title\": \"Mix\", \"id\": \"RD2\"}\nx\n\
{\"title\": \"Four\", \"id\": \"4\"}\n";
    let stream = TrackStream::spawn("https://example.com/list").expect("accepted");
    let mut tracks = Vec::new();
    for line in stdout.lines() {
        if let StreamStep::Track(track) = stream.next_track(Some(line)) {
            tracks.push(track);
        }
    }
    assert_eq!(stream.next_track(None), StreamStep::Ended);
    assert_eq!(Ok(tracks), search(&finished(stdout), 20));
    assert_eq!(stream.finish(true), Ok(()));
}

#[test]
fn stream_lines_without_a_track_are_skipped() {
    let stream = TrackStream::spawn("song").expect("accepted");
    assert_eq!(stream.next_track(Some("  \t")), StreamStep::Skipped);
    assert_eq!(stream.next_track(Some("{")), StreamStep::Skipped);
    assert_eq!(step_for_entry(None), StreamStep::Skipped);
    assert_eq!(
        stream.next_track(Some("{\"title\": \"One\", \"id\": \"1\"}")),
        StreamStep::Track(track("One", "https://www.youtube.com/watch?v=1"))
    );
}

#[test]
fn runs_fail_with_a_reason() {
    assert_eq!(
        search(&RunOutcome::TimedOut, 20),
        Err("yt-dlp timed out after 20s.".to_string())
    );
    assert_eq!(
        search(&RunOutcome::NotInstalled, 20),
        Err("yt-dlp is not installed or not on PATH.".to_string())
    );
    assert_eq!(
        search(&RunOutcome::Failed("broken pipe".to_string()), 20),
        Err("broken pipe".to_string())
    );
    assert_eq!(
        search(
            &RunOutcome::Finished {
                success: false,
                stdout: "{\"title\": \"One\", \"id\": \"1\"}".to_string(),
                stderr: "\nERROR: no network\n\n".to_string(),
            },
            20
        ),
        Err("yt-dlp failed: ERROR: no network".to_string())
    );
    assert_eq!(
        next_line_timeout(),
        "yt-dlp timed out after 15s waiting for the next track."
    );
    assert_eq!(spawn_error(true, "os error 2"), "yt-dlp is not installed or not on PATH.");
    assert_eq!(spawn_error(false, "os error 13"), "os error 13");
    assert_eq!(
        TrackStream::spawn("x").expect("accepted").finish(false),
        Err("yt-dlp exited with an error; some tracks may be missing.".to_string())
    );
}

#[test]
fn command_lines_ask_for_flat_json() {
    assert_eq!(
        search_args("lo-fi beats", 20),
        ["--no-warnings", "-j", "--flat-playlist", "ytsearch20:lo-fi beats"]
    );
    assert_eq!(
        TrackStream::spawn("https://youtube.com/playlist?list=PL1").expect("accepted").args,
        [
            "--no-warnings",
            "-j",
            "--flat-playlist",
            "--ignore-errors",
            "--default-search",
            "ytsearch",
            "https://youtube.com/playlist?list=PL1",
        ]
    );
}

#[test]
fn mix_playlists_are_refused() {
    assert_eq!(
        TrackStream::spawn("https://youtube.com/watch?v=a&list=RDa"),
        Err("❌ YouTube's auto-generated 'Mix' playlists cannot be added.".to_string())
    );
}
