//! When a guild's timers run, and how its connection and panel are torn
//! down.

use vstd::prelude::*;

use crate::player::state;
use crate::player::state::{
    abort_unless_self, stop_idle_leave_task, stop_progress_ticker, GuildPlayerState,
};

verus! {

/// What tearing a guild down takes: the tasks to abort, the panel message to
/// turn into a goodbye (message, then channel), and whether to leave its
/// call.
#[derive(Debug, PartialEq, Eq)]
pub struct Cleanup {
    pub aborts: Vec<u64>,
    pub goodbye: Option<(u64, u64)>,
    pub leave: bool,
    /// Whether there was anything to clean up.
    pub cleaned: bool,
}

/// Up to one task.
pub open spec fn some_task(task: Option<u64>) -> Seq<u64> {
    match task {
        Some(t) => seq![t],
        None => Seq::empty(),
    }
}

/// The tasks to abort when `current` tears down a guild.
pub open spec fn aborts_of(state: GuildPlayerState, current: Option<u64>) -> Seq<u64> {
    some_task(state::abort_of(state.empty_channel_leave_task, current)) + some_task(
        state::abort_of(state.progress_ticker, current),
    ) + some_task(state::abort_of(state.idle_leave_task, current))
}

/// The panel message to turn into a goodbye.
pub open spec fn goodbye_of(state: GuildPlayerState) -> Option<(u64, u64)> {
    match (state.now_playing_message, state.text_channel) {
        (Some(message_id), Some(channel_id)) => Some((message_id, channel_id)),
        _ => None,
    }
}

/// A guild's state once it has been torn down.
pub open spec fn torn_down(state: GuildPlayerState) -> GuildPlayerState {
    GuildPlayerState {
        empty_channel_leave_task: None,
        progress_ticker: None,
        idle_leave_task: None,
        now_playing_message: None,
        ..state
    }
}

/// Appends a task, if there is one.
fn push_task(aborts: &mut Vec<u64>, task: Option<u64>)
    ensures
        final(aborts)@ == old(aborts)@ + some_task(task),
{
    if let Some(t) = task {
        aborts.push(t);
    }
    assert(aborts@ =~= old(aborts)@ + some_task(task));
}

/// Tears down a guild's voice connection and panel state: forgets pending
/// timers and the panel message, and says what is left to do about them.
/// `state` is the guild's state, already taken out of the shared map;
/// `current` is the task that is running, which is never aborted.
pub fn cleanup_guild(
    state: Option<&mut GuildPlayerState>,
    current: Option<u64>,
    had_call: bool,
) -> (cleanup: Cleanup)
    ensures
        cleanup.leave == had_call,
        cleanup.cleaned == (had_call || state is Some),
        state matches Some(s) ==> {
            &&& cleanup.aborts@ == aborts_of(*s, current)
            &&& cleanup.goodbye == goodbye_of(*s)
            &&& *final(s) == torn_down(*s)
        },
        state is None ==> cleanup.aborts@.len() == 0 && cleanup.goodbye is None,
{
    let mut aborts: Vec<u64> = Vec::new();
    match state {
        Some(state) => {
            let ghost before = *state;
            let pending = state.empty_channel_leave_task.take();
            let empty_channel = match pending {
                Some(task) => abort_unless_self(task, current),
                None => None,
            };
            push_task(&mut aborts, empty_channel);
            let ticker = stop_progress_ticker(state, current);
            push_task(&mut aborts, ticker);
            let idle = stop_idle_leave_task(state, current);
            push_task(&mut aborts, idle);
            let goodbye = match (state.now_playing_message.take(), state.text_channel) {
                (Some(message_id), Some(channel_id)) => Some((message_id, channel_id)),
                _ => None,
            };
            assert(aborts@ =~= aborts_of(before, current));
            Cleanup { aborts, goodbye, leave: had_call, cleaned: true }
        },
        None => Cleanup { aborts, goodbye: None, leave: had_call, cleaned: had_call },
    }
}

/// A timer that tears its own guild down is never among the tasks that this
/// aborts, so the teardown always gets as far as leaving the call.
pub proof fn law_cleanup_spares_the_running_task(state: GuildPlayerState, current: u64)
    ensures
        !aborts_of(state, Some(current)).contains(current),
{
}

/// No timer outlives its guild: each pending one is aborted, unless it is
/// the one that is running, and none is left on record.
pub proof fn law_cleanup_leaves_no_timer(
    state: GuildPlayerState,
    current: Option<u64>,
    task: u64,
)
    requires
        state.empty_channel_leave_task == Some(task) || state.progress_ticker == Some(task)
            || state.idle_leave_task == Some(task),
        current != Some(task),
    ensures
        aborts_of(state, current).contains(task),
        torn_down(state).empty_channel_leave_task is None,
        torn_down(state).progress_ticker is None,
        torn_down(state).idle_leave_task is None,
{
    let a = some_task(state::abort_of(state.empty_channel_leave_task, current));
    let b = some_task(state::abort_of(state.progress_ticker, current));
    let c = some_task(state::abort_of(state.idle_leave_task, current));
    let all = aborts_of(state, current);
    if state.empty_channel_leave_task == Some(task) {
        assert(all[0] == task);
    } else if state.progress_ticker == Some(task) {
        assert(all[a.len() as int] == task);
    } else {
        assert(all[(a + b).len() as int] == task);
    }
}

/// What becomes of the guild's idle-leave timer.
#[derive(Clone, Copy, Debug, PartialEq, Eq, Structural)]
pub enum IdleStep {
    /// It is stopped, by aborting the given background job if there is one.
    Stop(Option<u64>),
    /// It stays as it is.
    Keep,
    /// A new one is started.
    Start,
}

/// Starts or cancels the idle-leave timer to match whether the call's queue
/// is currently empty. `unfinished` tells whether the timer on record, if
/// there is one, is still pending.
pub fn sync_idle_leave_task(
    state: &mut GuildPlayerState,
    is_idle: bool,
    unfinished: bool,
    current: Option<u64>,
) -> (step: IdleStep)
    ensures
        step == (if !is_idle {
            IdleStep::Stop(state::abort_of(old(state).idle_leave_task, current))
        } else if old(state).idle_leave_task is Some && unfinished {
            IdleStep::Keep
        } else {
            IdleStep::Start
        }),
        *final(state) == (if is_idle {
            *old(state)
        } else {
            GuildPlayerState { idle_leave_task: None, ..*old(state) }
        }),
{
    if !is_idle {
        return IdleStep::Stop(stop_idle_leave_task(state, current));
    }
    if state.idle_leave_task.is_some() && unfinished {
        IdleStep::Keep
    } else {
        IdleStep::Start
    }
}

/// What an idle-leave timer does when it fires: `idle` tells whether the
/// guild's queue is empty, if it still has a call.
#[derive(Clone, Copy, Debug, PartialEq, Eq, Structural)]
pub enum IdleTimer {
    /// There is no call any more: nothing to do.
    Nothing,
    /// Still idle: leave now.
    Leave,
    /// A track is playing again: stay.
    Stay,
}

/// Decides what an idle-leave timer does when it fires.
pub fn idle_timer_fired(idle: Option<bool>) -> (step: IdleTimer)
    ensures
        step == (match idle {
            None => IdleTimer::Nothing,
            Some(true) => IdleTimer::Leave,
            Some(false) => IdleTimer::Stay,
        }),
{
    match idle {
        None => IdleTimer::Nothing,
        Some(idle) => if idle {
            IdleTimer::Leave
        } else {
            IdleTimer::Stay
        },
    }
}

/// Whether the bot leaves when an empty-channel timer fires: nobody came
/// back to cancel it, so it does if there is still a call to leave.
pub fn empty_channel_timer_fired(has_call: bool) -> (leave: bool)
    ensures
        leave == has_call,
{
    has_call
}

/// Whether the progress ticker goes on after a tick: it ends once nothing is
/// playing.
pub fn ticker_goes_on(playing: bool) -> (goes_on: bool)
    ensures
        goes_on == playing,
{
    playing
}

/// Whether the progress ticker has to be started: there is none on record,
/// or the one on record has finished.
pub fn ensure_progress_ticker(state: &GuildPlayerState, unfinished: bool) -> (start: bool)
    ensures
        start == !(state.progress_ticker is Some && unfinished),
{
    !(state.progress_ticker.is_some() && unfinished)
}

/// A teardown aborts nothing but the guild's own timers and its ticker, and
/// each of them once.
pub proof fn law_cleanup_aborts_only_the_guilds_tasks(
    state: GuildPlayerState,
    current: Option<u64>,
    task: u64,
)
    requires
        aborts_of(state, current).contains(task),
    ensures
        state.empty_channel_leave_task == Some(task) || state.progress_ticker == Some(task)
            || state.idle_leave_task == Some(task),
        current != Some(task),
        aborts_of(state, current).len() <= 3,
{
}

/// A teardown says goodbye in the panel message on record, in the guild's
/// text channel, if it has both; it forgets that message and keeps the rest
/// of what is on record.
pub proof fn law_cleanup_says_goodbye_on_the_panel(state: GuildPlayerState, message: u64, channel: u64)
    ensures
        goodbye_of(state) == Some((message, channel)) <==> state.now_playing_message == Some(message)
            && state.text_channel == Some(channel),
        goodbye_of(state) is None <==> state.now_playing_message is None || state.text_channel
            is None,
        torn_down(state).now_playing_message is None,
        torn_down(state).text_channel == state.text_channel,
        torn_down(state).panel_events_registered == state.panel_events_registered,
        torn_down(state).loop_mode == state.loop_mode,
        torn_down(state).silence_auto_paused == state.silence_auto_paused,
        torn_down(state).last_button_press == state.last_button_press,
{
}

} // verus!
