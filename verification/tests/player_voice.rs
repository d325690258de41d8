use y4music::player::events::{
    LoopHandler, LoopStep, PanelStep, PanelUpdater, PanelUpdaterKind, PlaybackErrorNotifier,
};
use y4music::player::state::{GuildPlayerState, LoopMode, TrackMeta};
use y4music::player::track::seek_to;
use y4music::player::voice::{
    count_listeners, handle_voice_state_update, Notice, Reaction, VoiceState, VoiceStep,
    VoiceUpdate,
};
use y4music::time::Duration;

const BOT: u64 = 1;
const CHANNEL: u64 = 500;

fn human(user_id: u64, deaf: bool) -> VoiceState {
    VoiceState { user_id, channel_id: Some(CHANNEL), is_bot: false, self_deaf: deaf, deaf: false }
}

fn update() -> VoiceUpdate {
    VoiceUpdate {
        user_id: 2,
        bot_id: BOT,
        old_channel: None,
        new_channel: Some(CHANNEL),
        has_call: true,
        bot_channel: Some(CHANNEL),
    }
}

fn state() -> GuildPlayerState {
    GuildPlayerState { text_channel: Some(9), ..GuildPlayerState::default() }
}

const CALM: Reaction = Reaction { notice: None, start_timer: false, abort: None, pause: None };

#[test]
fn only_humans_in_the_channel_listen() {
    let mut elsewhere = human(3, false);
    elsewhere.channel_id = Some(501);
    let mut gone = human(4, false);
    gone.channel_id = None;
    let mut bot = human(5, false);
    bot.is_bot = true;
    let crowd = vec![human(BOT, false), elsewhere, gone, bot, human(6, true)];
    assert_eq!(count_listeners(&crowd, BOT, CHANNEL), (1, true));
    assert_eq!(count_listeners(&vec![], BOT, CHANNEL), (0, false));
    let mut server_deaf = human(7, false);
    server_deaf.deaf = true;
    assert_eq!(count_listeners(&vec![human(6, true), server_deaf], BOT, CHANNEL), (2, true));
    assert_eq!(count_listeners(&vec![human(6, true), human(8, false)], BOT, CHANNEL), (2, false));
}

#[test]
fn a_disconnect_counts_only_if_the_call_is_gone() {
    let kicked = VoiceUpdate {
        user_id: BOT,
        old_channel: Some(CHANNEL),
        new_channel: None,
        has_call: false,
        bot_channel: None,
        ..update()
    };
    let step = |u: VoiceUpdate| {
        handle_voice_state_update(&u, &vec![], Some(&mut state()), false, None)
    };
    assert_eq!(step(kicked), VoiceStep::Cleanup);
    assert_eq!(step(VoiceUpdate { has_call: true, ..kicked }), VoiceStep::Ignore);
    assert_eq!(step(VoiceUpdate { old_channel: None, ..kicked }), VoiceStep::Ignore);
    assert_eq!(step(VoiceUpdate { new_channel: Some(3), ..kicked }), VoiceStep::Ignore);
}

#[test]
fn changes_without_a_call_are_ignored() {
    let step = |u: VoiceUpdate| {
        handle_voice_state_update(&u, &vec![], Some(&mut state()), false, None)
    };
    assert_eq!(step(VoiceUpdate { has_call: false, ..update() }), VoiceStep::Ignore);
    assert_eq!(step(VoiceUpdate { bot_channel: None, ..update() }), VoiceStep::Ignore);
    assert_eq!(
        handle_voice_state_update(&update(), &vec![human(2, false)], None, false, None),
        VoiceStep::Ignore
    );
}

#[test]
fn everyone_leaving_starts_one_timer() {
    let mut s = state();
    let alone = vec![human(BOT, false)];
    assert_eq!(
        handle_voice_state_update(&update(), &alone, Some(&mut s), false, None),
        VoiceStep::React(Reaction {
            notice: Some((9, Notice::EveryoneLeft)),
            start_timer: true,
            ..CALM
        })
    );
    s.empty_channel_leave_task = Some(77);
    assert_eq!(
        handle_voice_state_update(&update(), &alone, Some(&mut s), true, None),
        VoiceStep::React(CALM)
    );
    assert_eq!(s.empty_channel_leave_task, Some(77));
    assert_eq!(
        Notice::EveryoneLeft.text(),
        "Everyone left... I'll leave automatically in 30 seconds."
    );
}

#[test]
fn coming_back_cancels_the_departure() {
    let mut s = state();
    s.empty_channel_leave_task = Some(77);
    assert_eq!(
        handle_voice_state_update(&update(), &vec![human(2, false)], Some(&mut s), true, None),
        VoiceStep::React(Reaction {
            notice: Some((9, Notice::WelcomeBack)),
            abort: Some(77),
            ..CALM
        })
    );
    assert_eq!(s.empty_channel_leave_task, None);
    assert_eq!(Notice::WelcomeBack.text(), "Welcome back! Canceling auto-leave.");
    let mut done = state();
    done.empty_channel_leave_task = Some(77);
    assert_eq!(
        handle_voice_state_update(&update(), &vec![human(2, false)], Some(&mut done), false, None),
        VoiceStep::React(CALM)
    );
    assert_eq!(done.empty_channel_leave_task, None);
}

#[test]
fn silence_pauses_and_hearing_resumes_only_that_pause() {
    let mut s = state();
    let mut hear = |deaf: &[bool]| {
        let crowd = deaf.iter().enumerate().map(|(i, d)| human(i as u64 + 2, *d)).collect();
        match handle_voice_state_update(&update(), &crowd, Some(&mut s), false, None) {
            VoiceStep::React(reaction) => reaction.pause,
            _ => panic!("a reaction"),
        }
    };
    assert_eq!(hear(&[false]), None);
    assert_eq!(hear(&[true, false]), None);
    assert_eq!(hear(&[true, true]), Some(true));
    assert_eq!(hear(&[true, true]), None);
    assert_eq!(hear(&[true, false]), Some(false));
    assert_eq!(hear(&[true, false]), None);
    assert_eq!(hear(&[true]), Some(true));
    assert_eq!(hear(&[]), None);
    assert_eq!(hear(&[true]), None);
    assert_eq!(hear(&[false]), Some(false));
}

fn meta(title: &str) -> TrackMeta {
    TrackMeta {
        title: title.to_string(),
        url: format!("https://example.com/{title}"),
        requested_by: 42,
        duration: Some(Duration::from_secs(200)),
        eq_filter: None,
        thumbnail: None,
        uploader: None,
        requester_name: "Ann".to_string(),
        start_offset: Duration::from_secs(30),
        is_seek: true,
        is_loop_clone: true,
    }
}

#[test]
fn the_panel_follows_the_start_and_the_end_of_a_track() {
    assert_eq!(
        PanelUpdater { kind: PanelUpdaterKind::Play }.act(),
        [PanelStep::Refresh, PanelStep::EnsureTicker, PanelStep::SyncIdle]
    );
    assert_eq!(
        PanelUpdater { kind: PanelUpdaterKind::End }.act(),
        [PanelStep::Refresh, PanelStep::StopTicker, PanelStep::SyncIdle]
    );
}

#[test]
fn playback_errors_are_reported_where_the_panel_is() {
    let notifier = PlaybackErrorNotifier {};
    assert_eq!(
        notifier.act(Some(9), "Song"),
        Some((9, "❌ Playback error: Skipping **Song**.".to_string()))
    );
    assert_eq!(notifier.act(None, "Song"), None);
}

#[test]
fn the_queue_loop_puts_a_fresh_copy_at_the_back() {
    let handler = LoopHandler { extra_args: vec!["--x".to_string()] };
    let ended = meta("a");
    match handler.act(LoopMode::Queue, false, &ended, Some(&meta("b"))) {
        LoopStep::Requeue { source, meta } => {
            assert_eq!(meta.title, "a");
            assert_eq!(meta.start_offset, Duration::zero());
            assert!(!meta.is_seek && !meta.is_loop_clone);
            assert_eq!(source.url, "https://example.com/a");
            assert_eq!(source.ytdlp_extra_args, ["--x"]);
            assert_eq!(source.seek_time, None);
        }
        other => panic!("a copy, not {other:?}"),
    }
}

#[test]
fn loops_do_only_what_they_should() {
    let handler = LoopHandler { extra_args: vec![] };
    let a = meta("a");
    let b = meta("b");
    assert_eq!(handler.act(LoopMode::Off, false, &a, None), LoopStep::Nothing);
    assert_eq!(handler.act(LoopMode::Track, false, &a, Some(&b)), LoopStep::TopUp);
    assert_eq!(handler.act(LoopMode::Track, true, &a, Some(&b)), LoopStep::Nothing);
    assert_eq!(handler.act(LoopMode::Queue, true, &a, None), LoopStep::Nothing);
}

#[test]
fn a_seek_does_not_requeue_what_it_replaced() {
    let handler = LoopHandler { extra_args: vec![] };
    let ended = meta("a").fresh_copy();
    let replacement = seek_to(Some(&ended), &vec![], Duration::from_secs(10)).unwrap().meta;
    for mode in [LoopMode::Queue, LoopMode::Track] {
        assert_eq!(handler.act(mode, false, &ended, Some(&replacement)), LoopStep::Nothing);
    }
    let other = meta("b").fresh_copy();
    assert_ne!(handler.act(LoopMode::Queue, false, &ended, Some(&other)), LoopStep::Nothing);
}
