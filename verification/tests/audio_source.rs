use y4music::audio_source::{
    extract_stream_url, resolve_args, resolve_entry, resolve_stream_url, seek_argument,
    spawn_pipeline, ToolOutcome,
};
use y4music::json::{parse_entry, JsonEntry};
use y4music::time::Duration;

fn entry(text: &str) -> JsonEntry {
    parse_entry(text).expect("well-formed JSON")
}

fn finished(stdout: &str) -> ToolOutcome {
    ToolOutcome::Finished { success: true, stdout: stdout.to_string(), stderr: String::new() }
}

#[test]
fn prefers_the_top_level_url_field() {
    let entry = entry(
        r#"{
            "url": "https://cdn.example.com/direct.webm",
            "formats": [
                {"vcodec": "none", "abr": 160.0, "url": "https://cdn.example.com/other.webm"}
            ]
        }"#,
    );
    assert_eq!(
        extract_stream_url(&entry).as_deref(),
        Some("https://cdn.example.com/direct.webm")
    );
}

#[test]
fn falls_back_to_the_highest_bitrate_audio_only_format() {
    let entry = entry(
        r#"{
            "formats": [
                {"vcodec": "h264", "abr": 0.0, "url": "https://cdn.example.com/video-only.mp4"},
                {"vcodec": "none", "abr": 128.0, "url": "https://cdn.example.com/low.webm"},
                {"vcodec": "none", "abr": 160.0, "url": "https://cdn.example.com/high.webm"}
            ]
        }"#,
    );
    assert_eq!(
        extract_stream_url(&entry).as_deref(),
        Some("https://cdn.example.com/high.webm")
    );
}

#[test]
fn returns_none_when_nothing_playable_is_present() {
    let entry = entry(
        r#"{"formats": [{"vcodec": "h264", "url": "https://cdn.example.com/video-only.mp4"}]}"#,
    );
    assert_eq!(extract_stream_url(&entry), None);
}

#[test]
fn the_last_of_equally_good_formats_wins() {
    let tied = entry(
        r#"{"formats": [
            {"vcodec": "none", "abr": 96, "url": "a"},
            {"vcodec": "none", "abr": 160, "url": "b"},
            {"vcodec": "none", "abr": 160.0, "url": "c"},
            {"vcodec": "none", "abr": 48, "url": "d"}
        ]}"#,
    );
    assert_eq!(extract_stream_url(&tied).as_deref(), Some("c"));
}

#[test]
fn a_missing_bit_rate_counts_as_zero_and_a_negative_one_as_less() {
    let rows = entry(
        r#"{"formats": [
            {"vcodec": "none", "url": "unknown"},
            {"vcodec": "none", "abr": -1.5, "url": "negative"},
            {"vcodec": "none", "abr": 320},
            "not an object"
        ]}"#,
    );
    assert_eq!(extract_stream_url(&rows).as_deref(), Some("unknown"));
}

#[test]
fn a_value_that_is_no_object_has_no_stream() {
    assert_eq!(extract_stream_url(&entry("[1, 2]")), None);
    assert_eq!(extract_stream_url(&entry(r#"{"formats": 3}"#)), None);
    assert_eq!(extract_stream_url(&entry(r#"{"url": 3}"#)), None);
}

#[test]
fn resolution_reads_the_first_line_that_is_not_blank() {
    let outcome = finished("\n   \r\n{\"url\": \"https://cdn/x\"}\n{\"url\": \"https://cdn/y\"}\n");
    assert_eq!(resolve_stream_url(&outcome), Ok("https://cdn/x".to_string()));
}

#[test]
fn resolution_fails_with_a_reason() {
    assert_eq!(
        resolve_stream_url(&ToolOutcome::SpawnFailed("no such file".to_string())),
        Err("failed to spawn yt-dlp: no such file".to_string())
    );
    assert_eq!(
        resolve_stream_url(&ToolOutcome::Finished {
            success: false,
            stdout: String::new(),
            stderr: "  ERROR: gone \n".to_string(),
        }),
        Err("yt-dlp failed to resolve a stream URL: ERROR: gone".to_string())
    );
    assert_eq!(
        resolve_stream_url(&finished("")),
        Err("yt-dlp returned no usable metadata".to_string())
    );
    assert_eq!(
        resolve_stream_url(&finished("not json\n{\"url\": \"late\"}")),
        Err("yt-dlp returned no usable metadata".to_string())
    );
    assert_eq!(
        resolve_stream_url(&finished("{}")),
        Err("yt-dlp did not report a playable stream URL".to_string())
    );
    assert_eq!(
        resolve_entry(None),
        Err("yt-dlp returned no usable metadata".to_string())
    );
}

#[test]
fn metadata_lookups_put_the_extra_arguments_first() {
    let args = resolve_args("https://youtu.be/x", &vec!["--cookies".to_string(), "c.txt".to_string()]);
    assert_eq!(
        args,
        [
            "--cookies",
            "c.txt",
            "-f",
            "bestaudio/best",
            "--no-playlist",
            "--no-warnings",
            "--quiet",
            "-j",
            "https://youtu.be/x",
        ]
    );
}

#[test]
fn seek_positions_are_rounded_to_milliseconds() {
    assert_eq!(seek_argument(Duration::from_secs(90)), "90.000");
    assert_eq!(seek_argument(Duration::new(1, 234_567_890)), "1.235");
    assert_eq!(seek_argument(Duration::new(1, 234_499_999)), "1.234");
    assert_eq!(seek_argument(Duration::new(0, 999_999_999)), "1.000");
    assert_eq!(seek_argument(Duration::zero()), "0.000");
    assert_eq!(seek_argument(Duration::new(u64::MAX, 999_999_999)), "18446744073709551616.000");
    assert_eq!(seek_argument(Duration::new(0, 500_000)), "0.001");
    assert_eq!(seek_argument(Duration::new(0, 62_500_000)), "0.062");
    assert_eq!(seek_argument(Duration::new(0, 187_500_000)), "0.188");
}

#[test]
fn balanced_pipelines_read_promptly_and_filter() {
    let args = spawn_pipeline("https://cdn/x", None, None);
    let line = args.join(" ");
    assert_eq!(
        line,
        "-hide_banner -loglevel error -reconnect 1 -reconnect_streamed 1 \
-reconnect_delay_max 5 -rw_timeout 5000000 -thread_queue_size 4096 \
-i https://cdn/x -vn -af volume=-6dB,\
aresample=48000:resampler=swr:precision=24:dither_method=shibata,\
anequalizer=c0 f=60 w=15 g=1.5|c1 f=60 w=15 g=1.5,\
compand=attacks=0.02:decays=0.1:points=-80/-80|-35/-35|0/-5,\
loudnorm=I=-16:LRA=10:TP=-2 -f f32le -ar 48000 -ac 2 pipe:1"
    );
}

#[test]
fn hifi_pipelines_buffer_deeply_and_seek_before_the_input() {
    let args = spawn_pipeline("https://cdn/x", Some("anull"), Some(Duration::from_millis(12_500)));
    let line = args.join(" ");
    assert_eq!(
        line,
        "-hide_banner -loglevel error -reconnect 1 -reconnect_streamed 1 \
-reconnect_delay_max 10 -rw_timeout 15000000 -thread_queue_size 16384 \
-analyzeduration 10M -probesize 10M -fflags +nobuffer+genpts -ss 12.500 \
-i https://cdn/x -vn -af anull -f f32le -ar 48000 -ac 2 pipe:1"
    );
}
