use y4music::commands::search::ids::{next, prev, target_page};
use y4music::commands::search::{
    build_components, build_embed, finish_select, format_duration, handle_component_interaction,
    handle_page, handle_select, new_sessions, register, search, sweep_stale, total_pages, truncate,
    SearchPress, SearchReply, SearchSession, SearchSessions, SelectStep,
};
use y4music::discord::{ActionRow, Colour};
use y4music::time::Duration;
use y4music::ytdlp::TrackInfo;

fn track(i: usize) -> TrackInfo {
    TrackInfo {
        title: format!("Song {i}"),
        uploader: if i == 0 { None } else { Some("Band".to_string()) },
        duration: 61 + i as i64,
        webpage_url: format!("https://youtu.be/{i}"),
        thumbnail: None,
    }
}

fn tracks(n: usize) -> Vec<TrackInfo> {
    (0..n).map(track).collect()
}

fn session(n: usize, created_at: Duration) -> SearchSession {
    SearchSession { query: "lofi".to_string(), tracks: tracks(n), created_at }
}

fn values(v: &str) -> Vec<String> {
    vec![v.to_string()]
}

#[test]
fn search_ids_name_their_page() {
    assert_eq!(prev(3), "search:prev:3");
    assert_eq!(next(12), "search:next:12");
    for n in [0, 1, usize::MAX] {
        assert_eq!(target_page(&prev(n)), Some(n));
        assert_eq!(target_page(&next(n)), Some(n));
    }
    assert_eq!(target_page("search:next:oops"), Some(0));
    assert_eq!(target_page("search:select"), None);
}

#[test]
fn long_texts_are_cut() {
    assert_eq!(truncate("short", 5), "short");
    assert_eq!(truncate("longer", 5), "long…");
    assert_eq!(truncate("ñandú ñandú", 3), "ña…");
    assert_eq!(truncate("x", 0), "…");
    assert_eq!(truncate("", 0), "");
    assert_eq!(truncate(&"y".repeat(300), 100).chars().count(), 100);
}

#[test]
fn track_lengths_are_minutes_and_seconds() {
    assert_eq!(format_duration(0), "00:00");
    assert_eq!(format_duration(-5), "00:00");
    assert_eq!(format_duration(125), "02:05");
    assert_eq!(format_duration(6_000), "100:00");
}

#[test]
fn results_are_announced_with_their_page() {
    let embed = build_embed("lofi", &tracks(15), 1);
    assert_eq!(embed.title, "🔎 Search Results: `lofi`");
    assert_eq!(
        embed.description,
        "Found 15 tracks. Please select one from the menu below."
    );
    assert_eq!(embed.footer.as_deref(), Some("Page 2/2"));
    assert_eq!(embed.colour, Colour::Red);
    assert_eq!(build_embed("lofi", &tracks(15), 9).footer.as_deref(), Some("Page 2/2"));
    assert_eq!(total_pages(&tracks(0)), 1);
    assert_eq!(total_pages(&tracks(20)), 2);
}

#[test]
fn menus_list_the_page_s_results() {
    let rows = build_components(&tracks(15), 1);
    match &rows[..] {
        [ActionRow::Select(menu), ActionRow::Buttons(buttons)] => {
            assert_eq!(menu.custom_id, "search:select");
            assert_eq!(menu.placeholder, "Select a track to play...");
            assert_eq!(menu.options.len(), 5);
            assert_eq!(menu.options[0].label, "11. Song 10");
            assert_eq!(menu.options[0].value, "10");
            assert_eq!(menu.options[0].description, "👤 Band | 🕒 01:11");
            assert_eq!(buttons[0].custom_id, "search:prev:0");
            assert_eq!(buttons[0].label.as_deref(), Some("⏪ Previous"));
            assert!(!buttons[0].disabled);
            assert_eq!(buttons[1].custom_id, "search:next:1");
            assert_eq!(buttons[1].label.as_deref(), Some("Next ⏩"));
            assert!(buttons[1].disabled);
        }
        _ => panic!("a menu and a row of buttons"),
    }
    match &build_components(&tracks(15), 0)[..] {
        [ActionRow::Select(menu), ActionRow::Buttons(buttons)] => {
            assert_eq!(menu.options.len(), 10);
            assert_eq!(menu.options[0].description, "👤 Unknown | 🕒 01:01");
            assert!(buttons[0].disabled && !buttons[1].disabled);
        }
        _ => panic!("a menu and a row of buttons"),
    }
}

#[test]
fn searches_are_answered() {
    let now = Duration::from_secs(3);
    assert_eq!(
        search("q".to_string(), Err("yt-dlp timed out after 20s.".to_string()), now),
        SearchReply::Say("yt-dlp timed out after 20s.".to_string())
    );
    assert_eq!(
        search("q".to_string(), Ok(vec![]), now),
        SearchReply::Say("❌ No results were found for `q`.".to_string())
    );
    match search("q".to_string(), Ok(tracks(2)), now) {
        SearchReply::Show { session, page } => {
            assert_eq!(session.tracks, tracks(2));
            assert_eq!(session.created_at, now);
            assert_eq!(page.embed.title, "🔎 Search Results: `q`");
            assert_eq!(page.components.len(), 2);
        }
        other => panic!("results, not {other:?}"),
    }
}

#[test]
fn presses_are_told_apart() {
    assert_eq!(handle_component_interaction("search:select"), SearchPress::Select);
    assert_eq!(handle_component_interaction("search:next:4"), SearchPress::Page(4));
    assert_eq!(handle_component_interaction("search:prev:junk"), SearchPress::Page(0));
    assert_eq!(handle_component_interaction("search:other"), SearchPress::Ignore);
}

#[test]
fn pages_of_known_results_are_shown() {
    let mut sessions: SearchSessions = new_sessions();
    assert_eq!(handle_page(&sessions, 7, 0), None);
    register(&mut sessions, 7, session(15, Duration::zero()));
    let page = handle_page(&sessions, 7, 1).expect("a known result set");
    assert_eq!(page.embed.footer.as_deref(), Some("Page 2/2"));
    assert_eq!(handle_page(&sessions, 8, 0), None);
}

#[test]
fn picked_results_are_queued() {
    let mut sessions = new_sessions();
    register(&mut sessions, 7, session(15, Duration::zero()));
    let pick = |v: &str, guild: bool, channel: Option<u64>| {
        handle_select(&sessions, 7, &values(v), guild, channel)
    };
    assert_eq!(
        pick("12", true, Some(5)),
        SelectStep::Enqueue { track: track(12), voice_channel: 5 }
    );
    assert_eq!(
        pick("0", true, None),
        SelectStep::Refuse("You must be in a voice channel first.".to_string())
    );
    assert_eq!(pick("15", true, Some(5)), SelectStep::Ignore);
    assert_eq!(pick("x", true, Some(5)), SelectStep::Ignore);
    assert_eq!(pick("0", false, Some(5)), SelectStep::Ignore);
    assert_eq!(handle_select(&sessions, 7, &vec![], true, Some(5)), SelectStep::Ignore);
    assert_eq!(
        handle_select(&sessions, 8, &values("0"), true, Some(5)),
        SelectStep::Acknowledge
    );
}

#[test]
fn a_result_set_closes_once_a_track_was_queued() {
    let mut sessions = new_sessions();
    register(&mut sessions, 7, session(15, Duration::zero()));
    register(&mut sessions, 8, session(15, Duration::zero()));
    assert_eq!(
        finish_select(&mut sessions, 7, &track(3)),
        "✅ Added **Song 3** to the queue."
    );
    assert_eq!(handle_page(&sessions, 7, 0), None);
    assert!(handle_page(&sessions, 8, 0).is_some());
}

#[test]
fn stale_result_sets_are_swept() {
    let mut sessions = new_sessions();
    register(&mut sessions, 1, session(1, Duration::from_secs(0)));
    register(&mut sessions, 2, session(1, Duration::from_secs(1)));
    sweep_stale(&mut sessions, Duration::from_secs(899));
    assert!(handle_page(&sessions, 1, 0).is_some());
    sweep_stale(&mut sessions, Duration::from_secs(900));
    assert_eq!(handle_page(&sessions, 1, 0), None);
    assert!(handle_page(&sessions, 2, 0).is_some());
}
