use std::sync::Arc;

use y4music::discord::{ActionRow, Button, ButtonStyle, Colour};
use y4music::player::panel::{
    action_note, clone_step_for, handle_component_interaction, is_not_found, panel_action,
    panel_target, record_panel, refresh_panel, toggle_pause, ActionOutcome, CloneStep, PanelAction,
    PanelButton, PanelOutcome, PauseStep, Press, RequestError,
};
use y4music::player::state::{GuildPlayerState, LoopMode, TrackMeta};
use y4music::player::ui::{
    control_panel_components, disabled_control_panel_components, finished_embed, format_duration,
    goodbye_embed, now_playing_embed, progress_bar, TrackStatus,
};
use y4music::time::Duration;

fn meta(title: &str) -> TrackMeta {
    TrackMeta {
        title: title.to_string(),
        url: "https://youtu.be/x".to_string(),
        requested_by: 42,
        duration: Some(Duration::from_secs(200)),
        eq_filter: None,
        thumbnail: None,
        uploader: None,
        requester_name: "Ann".to_string(),
        start_offset: Duration::zero(),
        is_seek: false,
        is_loop_clone: false,
    }
}

fn status(paused: bool, secs: u64, volume_pct: i64) -> Option<TrackStatus> {
    Some(TrackStatus { paused, position: Duration::from_secs(secs), volume_pct })
}

#[test]
fn progress_bars_fill_up() {
    let secs = Duration::from_secs;
    assert_eq!(progress_bar(secs(0), secs(100)), "────────────────────");
    assert_eq!(progress_bar(secs(50), secs(100)), "██████████──────────");
    assert_eq!(progress_bar(secs(99), secs(100)), "███████████████████─");
    assert_eq!(progress_bar(secs(100), secs(100)), "████████████████████");
    assert_eq!(progress_bar(secs(500), secs(100)), "████████████████████");
    assert_eq!(progress_bar(secs(5), Duration::zero()), "────────────────────");
    assert_eq!(
        progress_bar(Duration::new(499_999_999, 999_999_999), secs(1_000_000_000)),
        "██████████──────────"
    );
    assert_eq!(progress_bar(Duration::from_millis(1_150), secs(23)), "────────────────────");
}

#[test]
fn progress_bars_have_constant_width_and_never_run_backwards() {
    let total = Duration::from_millis(61_234);
    let mut filled = 0;
    for ms in 0..70_000 {
        if ms % 97 != 0 {
            continue;
        }
        let bar = progress_bar(Duration::from_millis(ms), total);
        assert_eq!(bar.chars().count(), 20);
        let now = bar.chars().filter(|c| *c == '█').count();
        assert!(now >= filled);
        filled = now;
    }
    assert_eq!(filled, 20);
}

#[test]
fn durations_are_minutes_and_seconds() {
    assert_eq!(format_duration(Duration::zero()), "00:00");
    assert_eq!(format_duration(Duration::new(65, 999_999_999)), "01:05");
    assert_eq!(format_duration(Duration::from_secs(7_325)), "122:05");
}

#[test]
fn the_playing_panel_shows_everything() {
    let mut track = meta("Song");
    track.uploader = Some("Band".to_string());
    track.thumbnail = Some("https://i/t.jpg".to_string());
    track.eq_filter = Some("anull".to_string());
    track.start_offset = Duration::from_secs(60);
    let embed =
        now_playing_embed(&track, status(true, 40, 80), LoopMode::Queue, Some("Next"), 1, 3);
    assert_eq!(embed.title, "Now playing music:");
    assert_eq!(
        embed.description,
        "**By:** Band\n\u{200b}\n⏸️ Paused:\n**Song**\n[[Link to YouTube]](https://youtu.be/x)"
    );
    assert_eq!(embed.fields.len(), 2);
    assert_eq!(embed.fields[0].name, "");
    assert_eq!(
        embed.fields[0].value,
        "\u{200b}\n`01:40`\u{200b}`   ██████████──────────   `\u{200b}`03:20`"
    );
    assert_eq!(embed.fields[1].name, "⏭️ Up Next");
    assert_eq!(embed.fields[1].value, "Next");
    assert_eq!(
        embed.footer.as_deref(),
        Some("Requested by: Ann | 🎶 Queue: 1/3 | 🔊 Volume: 80% | 🔁 Loop: Queue | 🎧 Hi-Fi")
    );
    assert_eq!(embed.colour, Colour::Rgb(0x57F287));
    assert_eq!(embed.thumbnail.as_deref(), Some("https://i/t.jpg"));
}

#[test]
fn the_playing_panel_fills_in_what_is_unknown() {
    let mut track = meta("Song");
    track.duration = None;
    let embed = now_playing_embed(&track, None, LoopMode::Off, None, 1, 1);
    assert_eq!(
        embed.description,
        "**By:** Unknown Artist\n\u{200b}\n▶️ Playing:\n**Song**\n[[Link to YouTube]](https://youtu.be/x)"
    );
    assert_eq!(
        embed.fields[0].value,
        "\u{200b}\n`00:00`\u{200b}`   ────────────────────   `\u{200b}`00:00`"
    );
    assert_eq!(embed.fields.len(), 1);
    assert_eq!(
        embed.footer.as_deref(),
        Some("Requested by: Ann | 🎶 Queue: 1/1 | 🔊 Volume: 100%")
    );
    let looped = now_playing_embed(&track, None, LoopMode::Track, None, 1, 1);
    assert!(looped.footer.unwrap().ends_with(" | 🔁 Loop: Track"));
}

#[test]
fn the_panel_ends_in_grey() {
    let finished = finished_embed();
    assert_eq!(finished.title, "⏹️ Playback Finished");
    assert_eq!(finished.description, "Thanks for listening!");
    assert_eq!(finished.colour, Colour::DarkGrey);
    let goodbye = goodbye_embed();
    assert_eq!(goodbye.title, "👋 See you!");
    assert_eq!(goodbye.description, "Thanks for using the bot.");
}

fn buttons(row: &ActionRow) -> &Vec<Button> {
    match row {
        ActionRow::Buttons(buttons) => buttons,
        ActionRow::Select(_) => panic!("a row of buttons"),
    }
}

fn ids(rows: &[ActionRow]) -> Vec<&str> {
    rows.iter().flat_map(|r| buttons(r).iter().map(|b| b.custom_id.as_str())).collect()
}

#[test]
fn the_panel_has_two_rows_of_buttons() {
    let rows = control_panel_components(status(false, 0, 100), LoopMode::Track);
    assert_eq!(
        ids(&rows),
        ["np:seek_back", "np:pause_resume", "np:seek_forward", "np:loop", "np:skip", "np:shuffle"]
    );
    let transport = buttons(&rows[0]);
    assert_eq!(transport[0].label.as_deref(), Some("10s"));
    assert_eq!(transport[1].emoji, Some('⏸'));
    assert_eq!(transport[1].style, ButtonStyle::Primary);
    let queue = buttons(&rows[1]);
    assert_eq!(queue[0].label.as_deref(), Some("Loop: Track"));
    assert_eq!(queue[0].style, ButtonStyle::Success);
    assert!(rows.iter().all(|r| buttons(r).iter().all(|b| !b.disabled)));
    let paused = control_panel_components(status(true, 0, 100), LoopMode::Off);
    assert_eq!(buttons(&paused[0])[1].emoji, Some('▶'));
    assert_eq!(buttons(&paused[1])[0].style, ButtonStyle::Secondary);
}

#[test]
fn a_finished_panel_is_disabled() {
    let rows = disabled_control_panel_components(LoopMode::Queue);
    assert!(rows.iter().all(|r| buttons(r).iter().all(|b| b.disabled)));
    assert_eq!(buttons(&rows[1])[0].style, ButtonStyle::Secondary);
    assert_eq!(buttons(&rows[1])[0].label.as_deref(), Some("Loop: Queue"));
}

#[test]
fn the_panel_is_rebuilt_from_the_queue() {
    let queue = vec![Arc::new(meta("a")), Arc::new(meta("b")), Arc::new(meta("c"))];
    let panel = refresh_panel(&queue, status(false, 10, 100), LoopMode::Off);
    assert_eq!(panel.embed.fields[1].value, "b");
    assert!(panel.embed.footer.unwrap().contains("Queue: 1/3"));
    assert!(!buttons(&panel.components[0])[0].disabled);
    let empty = refresh_panel(&vec![], None, LoopMode::Off);
    assert_eq!(empty.embed.title, "⏹️ Playback Finished");
    assert!(buttons(&empty.components[0])[0].disabled);
}

#[test]
fn only_a_message_that_is_gone_is_not_found() {
    assert!(is_not_found(&RequestError::Refused { status: 404, code: 0 }));
    assert!(is_not_found(&RequestError::Refused { status: 400, code: 10008 }));
    assert!(is_not_found(&RequestError::Refused { status: 403, code: 10003 }));
    assert!(!is_not_found(&RequestError::Refused { status: 502, code: 0 }));
    assert!(!is_not_found(&RequestError::Refused { status: 429, code: 20028 }));
    assert!(!is_not_found(&RequestError::Unanswered));
}

#[test]
fn a_transient_failure_does_not_split_the_panel() {
    let mut state = GuildPlayerState { text_channel: Some(1), ..GuildPlayerState::default() };
    assert_eq!(panel_target(&state).unwrap().message_id, None);
    record_panel(&mut state, &PanelOutcome::SendFailed);
    assert_eq!(panel_target(&state).unwrap().message_id, None);
    record_panel(&mut state, &PanelOutcome::Sent(77));
    record_panel(&mut state, &PanelOutcome::EditFailed(RequestError::Unanswered));
    record_panel(
        &mut state,
        &PanelOutcome::EditFailed(RequestError::Refused { status: 502, code: 0 }),
    );
    record_panel(&mut state, &PanelOutcome::Edited);
    assert_eq!(panel_target(&state).unwrap().message_id, Some(77));
    record_panel(
        &mut state,
        &PanelOutcome::EditFailed(RequestError::Refused { status: 404, code: 10008 }),
    );
    assert_eq!(panel_target(&state).unwrap().message_id, None);
    assert_eq!(panel_target(&GuildPlayerState::default()), None);
}

#[test]
fn presses_within_the_cooldown_are_dropped() {
    let mut state = GuildPlayerState::default();
    let ms = Duration::from_millis;
    let mut press = |at: u64| handle_component_interaction("np:skip", true, Some(&mut state), ms(at));
    assert_eq!(press(10_000), Press::Act(PanelButton::Skip));
    assert_eq!(press(10_001), Press::Acknowledge);
    assert_eq!(press(11_499), Press::Acknowledge);
    assert_eq!(press(11_500), Press::Act(PanelButton::Skip));
    assert_eq!(press(12_999), Press::Acknowledge);
    assert_eq!(press(11_000), Press::Acknowledge);
    assert_eq!(press(13_000), Press::Act(PanelButton::Skip));
}

#[test]
fn presses_that_are_not_for_the_panel_are_ignored() {
    let mut state = GuildPlayerState::default();
    let now = Duration::from_secs(1);
    assert_eq!(handle_component_interaction("np:stop", true, Some(&mut state), now), Press::Ignore);
    assert_eq!(handle_component_interaction("np:skip", false, Some(&mut state), now), Press::Ignore);
    assert_eq!(state.last_button_press, None);
    assert_eq!(
        handle_component_interaction("np:loop", true, None, now),
        Press::Act(PanelButton::Loop)
    );
}

#[test]
fn every_button_is_known_by_its_id() {
    for (id, button) in [
        ("np:pause_resume", PanelButton::PauseResume),
        ("np:skip", PanelButton::Skip),
        ("np:loop", PanelButton::Loop),
        ("np:seek_back", PanelButton::SeekBack),
        ("np:seek_forward", PanelButton::SeekForward),
        ("np:shuffle", PanelButton::Shuffle),
    ] {
        assert_eq!(PanelButton::from_id(id), Some(button));
    }
    assert_eq!(PanelButton::from_id("np:"), None);
}

#[test]
fn presses_become_actions() {
    assert_eq!(panel_action(PanelButton::SeekBack, None), PanelAction::Seek(-10));
    assert_eq!(panel_action(PanelButton::SeekForward, None), PanelAction::Seek(10));
    assert_eq!(panel_action(PanelButton::Skip, None), PanelAction::Skip);
    assert_eq!(panel_action(PanelButton::PauseResume, None), PanelAction::TogglePause);
    assert_eq!(panel_action(PanelButton::Shuffle, None), PanelAction::Shuffle);
    assert_eq!(
        panel_action(PanelButton::Loop, None),
        PanelAction::Loop { mode: LoopMode::Off, clone: None }
    );
}

#[test]
fn the_loop_button_keeps_the_clone_in_step() {
    let mut state = GuildPlayerState::default();
    assert_eq!(
        panel_action(PanelButton::Loop, Some(&mut state)),
        PanelAction::Loop { mode: LoopMode::Track, clone: Some(CloneStep::Ensure) }
    );
    assert_eq!(
        panel_action(PanelButton::Loop, Some(&mut state)),
        PanelAction::Loop { mode: LoopMode::Queue, clone: Some(CloneStep::Remove) }
    );
    assert_eq!(state.loop_mode, LoopMode::Queue);
    assert_eq!(
        panel_action(PanelButton::Loop, Some(&mut state)),
        PanelAction::Loop { mode: LoopMode::Off, clone: Some(CloneStep::Remove) }
    );
    assert_eq!(panel_action(PanelButton::Skip, Some(&mut state)), PanelAction::Skip);
    assert_eq!(state.loop_mode, LoopMode::Off);
    assert_eq!(clone_step_for(LoopMode::Track), CloneStep::Ensure);
}

#[test]
fn presses_are_answered_with_a_note_where_there_is_something_to_say() {
    let failed = || Err("driver gone".to_string());
    for (outcome, note) in [
        (ActionOutcome::Sought(Ok(Duration::zero())), None),
        (ActionOutcome::Sought(failed().map(|()| Duration::zero())), Some("driver gone")),
        (ActionOutcome::Skipped { had_current: false, result: Ok(()) }, Some("Nothing to skip.")),
        (ActionOutcome::Skipped { had_current: true, result: Ok(()) }, None),
        (
            ActionOutcome::Skipped { had_current: true, result: failed() },
            Some("⚠️ driver gone"),
        ),
        (ActionOutcome::Toggled { had_current: false, result: Ok(()) }, Some("Nothing is playing.")),
        (ActionOutcome::Toggled { had_current: true, result: Ok(()) }, None),
        (
            ActionOutcome::Toggled { had_current: true, result: failed() },
            Some("⚠️ driver gone"),
        ),
        (
            ActionOutcome::Shuffled(0),
            Some("There's nothing queued up next to shuffle."),
        ),
        (ActionOutcome::Shuffled(1), None),
        (ActionOutcome::LoopSet(LoopMode::Track), Some("🔁 Loop: Track")),
    ] {
        assert_eq!(action_note(&outcome).as_deref(), note, "{outcome:?}");
    }
}

#[test]
fn a_paused_track_is_resumed_and_any_other_paused() {
    assert_eq!(toggle_pause(None), PauseStep::Nothing);
    assert_eq!(toggle_pause(Some(true)), PauseStep::Resume);
    assert_eq!(toggle_pause(Some(false)), PauseStep::Pause);
}
