use std::sync::atomic::{AtomicBool, Ordering};
use std::sync::Arc;

use y4music::player::lifecycle::{
    cleanup_guild, empty_channel_timer_fired, ensure_progress_ticker, idle_timer_fired,
    sync_idle_leave_task, ticker_goes_on, IdleStep, IdleTimer,
};
use y4music::player::state::{
    abort_unless_self, stop_idle_leave_task, stop_progress_ticker, GuildPlayerState, LoopMode,
};
use y4music::player::track::{derive_youtube_thumbnail, youtube_video_id};

/// Runs a task that gets its own handle and stops itself, guarded or not,
/// and tells whether it ran to completion.
fn ran_to_completion(guarded: bool) -> bool {
    let runtime = tokio::runtime::Builder::new_multi_thread()
        .worker_threads(2)
        .enable_all()
        .build()
        .expect("a runtime");
    let ran_to_completion = Arc::new(AtomicBool::new(false));
    let ran_to_completion_in_task = ran_to_completion.clone();
    runtime.block_on(async move {
        let (tx, rx) = tokio::sync::oneshot::channel::<(u64, tokio::task::JoinHandle<()>)>();
        let handle = tokio::spawn(async move {
            if let Ok((number, own_handle)) = rx.await {
                if !guarded || abort_unless_self(number, Some(7)).is_some() {
                    own_handle.abort();
                }
            }
            tokio::time::sleep(std::time::Duration::from_millis(10)).await;
            ran_to_completion_in_task.store(true, Ordering::SeqCst);
        });
        tx.send((7, handle))
            .expect("the task hasn't run far enough to drop its receiver yet");
        tokio::time::sleep(std::time::Duration::from_millis(100)).await;
    });
    ran_to_completion.load(Ordering::SeqCst)
}

/// A task that finds and aborts its own `JoinHandle` must keep running
/// to completion instead of silently cancelling itself.
#[test]
fn state_self_abort_does_not_cancel_the_calling_task() {
    assert!(
        ran_to_completion(true),
        "task should have run to completion after (not) aborting its own handle"
    );
}

/// Sanity check: a plain, unguarded `.abort()` in the same scenario does
/// genuinely cancel the calling task, confirming the test above exercises
/// real self-cancellation.
#[test]
fn state_plain_self_abort_does_cancel_the_calling_task() {
    assert!(
        !ran_to_completion(false),
        "expected the unguarded self-abort to cancel the task before completion"
    );
}

#[test]
fn other_tasks_are_aborted() {
    assert_eq!(abort_unless_self(7, Some(7)), None);
    assert_eq!(abort_unless_self(7, Some(8)), Some(7));
    assert_eq!(abort_unless_self(7, None), Some(7));
}

fn busy_state() -> GuildPlayerState {
    GuildPlayerState {
        text_channel: Some(10),
        now_playing_message: Some(20),
        panel_events_registered: true,
        empty_channel_leave_task: Some(1),
        loop_mode: LoopMode::Queue,
        progress_ticker: Some(2),
        idle_leave_task: Some(3),
        silence_auto_paused: true,
        last_button_press: None,
    }
}

#[test]
fn stopping_a_timer_forgets_it() {
    let mut state = busy_state();
    assert_eq!(stop_idle_leave_task(&mut state, None), Some(3));
    assert_eq!(stop_idle_leave_task(&mut state, None), None);
    assert_eq!(stop_progress_ticker(&mut state, Some(2)), None);
    assert_eq!(state.progress_ticker, None);
    assert_eq!(state.empty_channel_leave_task, Some(1));
}

#[test]
fn loop_modes_cycle() {
    assert_eq!(LoopMode::default(), LoopMode::Off);
    assert_eq!(LoopMode::Off.cycle(), LoopMode::Track);
    assert_eq!(LoopMode::Track.cycle(), LoopMode::Queue);
    assert_eq!(LoopMode::Queue.cycle(), LoopMode::Off);
    for mode in [LoopMode::Off, LoopMode::Track, LoopMode::Queue] {
        assert_eq!(mode.cycle().cycle().cycle(), mode);
    }
    assert_eq!(LoopMode::Off.label(), "Loop: Off");
    assert_eq!(LoopMode::Track.label(), "Loop: Track");
    assert_eq!(LoopMode::Queue.label(), "Loop: Queue");
}

#[test]
fn cleanup_aborts_every_other_timer_and_says_goodbye() {
    let mut state = busy_state();
    let cleanup = cleanup_guild(Some(&mut state), None, true);
    assert_eq!(cleanup.aborts, [1, 2, 3]);
    assert_eq!(cleanup.goodbye, Some((20, 10)));
    assert!(cleanup.leave && cleanup.cleaned);
    assert_eq!(state.now_playing_message, None);
    assert_eq!(state.idle_leave_task, None);
    assert_eq!(state.text_channel, Some(10));
}

#[test]
fn a_timer_that_cleans_up_is_spared_and_still_leaves() {
    for (current, expected) in [(1, [2, 3]), (2, [1, 3]), (3, [1, 2])] {
        let cleanup = cleanup_guild(Some(&mut busy_state()), Some(current), true);
        assert_eq!(cleanup.aborts, expected);
        assert!(cleanup.leave);
    }
}

#[test]
fn cleanup_without_anything_to_clean() {
    let cleanup = cleanup_guild(None, None, false);
    assert!(cleanup.aborts.is_empty());
    assert_eq!(cleanup.goodbye, None);
    assert!(!cleanup.leave && !cleanup.cleaned);
    assert!(cleanup_guild(None, None, true).cleaned);
    let mut silent = GuildPlayerState { now_playing_message: Some(1), ..GuildPlayerState::default() };
    let cleanup = cleanup_guild(Some(&mut silent), None, false);
    assert!(cleanup.cleaned && !cleanup.leave);
    assert_eq!(cleanup.goodbye, None);
}

#[test]
fn the_idle_timer_follows_the_queue() {
    let mut state = busy_state();
    assert_eq!(sync_idle_leave_task(&mut state, true, true, None), IdleStep::Keep);
    assert_eq!(sync_idle_leave_task(&mut state, true, false, None), IdleStep::Start);
    assert_eq!(sync_idle_leave_task(&mut state, false, true, None), IdleStep::Stop(Some(3)));
    assert_eq!(state.idle_leave_task, None);
    assert_eq!(sync_idle_leave_task(&mut state, false, false, None), IdleStep::Stop(None));
    assert_eq!(sync_idle_leave_task(&mut state, true, false, None), IdleStep::Start);
}

#[test]
fn the_idle_timer_leaves_only_if_still_idle() {
    assert_eq!(idle_timer_fired(None), IdleTimer::Nothing);
    assert_eq!(idle_timer_fired(Some(true)), IdleTimer::Leave);
    assert_eq!(idle_timer_fired(Some(false)), IdleTimer::Stay);
}

#[test]
fn the_empty_channel_timer_leaves_only_a_call_that_is_there() {
    assert!(empty_channel_timer_fired(true));
    assert!(!empty_channel_timer_fired(false));
}

#[test]
fn the_ticker_ends_once_nothing_plays() {
    assert!(ticker_goes_on(true));
    assert!(!ticker_goes_on(false));
}

#[test]
fn one_progress_ticker_at_a_time() {
    assert!(ensure_progress_ticker(&GuildPlayerState::default(), false));
    assert!(!ensure_progress_ticker(&busy_state(), true));
    assert!(ensure_progress_ticker(&busy_state(), false));
}

#[test]
fn video_ids_are_found_in_every_known_shape() {
    for (url, id) in [
        ("https://youtu.be/abc123?t=4", Some("abc123")),
        ("https://www.youtube.com/watch?v=dQw4w9WgXcQ&list=PL1", Some("dQw4w9WgXcQ")),
        ("https://YOUTUBE.com/watch?v=UPPER#frag", Some("UPPER")),
        ("https://youtube.com/shorts/xyz/", Some("xyz")),
        ("https://www.youtube.com/embed/e1?autoplay=1", Some("e1")),
        ("https://youtu.be/", None),
        ("https://youtu.be/aaa?u=youtu.be/bbb", Some("aaa")),
        ("https://youtube.com/watch?v=", None),
        ("https://youtube.com/channel/UC1", None),
        ("https://example.com/watch?v=abc", None),
        ("", None),
    ] {
        assert_eq!(youtube_video_id(url).as_deref(), id, "{url}");
    }
}

#[test]
fn thumbnails_are_derived_from_the_video_id() {
    assert_eq!(
        derive_youtube_thumbnail("https://youtu.be/abc").as_deref(),
        Some("https://i.ytimg.com/vi/abc/hqdefault.jpg")
    );
    assert_eq!(derive_youtube_thumbnail("https://vimeo.com/1"), None);
}
