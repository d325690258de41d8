//! Shared per-guild player state, plus the small timer-control helpers
//! everything else in `player` is built on.

use vstd::prelude::*;

use crate::time::Duration;

verus! {

/// Metadata attached to every enqueued track, so the queue and panel can
/// display it without asking yt-dlp again.
#[derive(Debug, PartialEq, Eq)]
pub struct TrackMeta {
    pub title: String,
    pub url: String,
    /// The Discord id of whoever queued the track.
    pub requested_by: u64,
    pub duration: Option<Duration>,
    /// This track's resolved EQ filter (`None` = Balanced, `Some` = Hi-Fi's
    /// `-af` string), snapshotted at enqueue time.
    pub eq_filter: Option<String>,
    /// Best-effort thumbnail URL, if derivable.
    pub thumbnail: Option<String>,
    /// Uploader/channel name, if known; shown as "By: {uploader}" on the panel.
    pub uploader: Option<String>,
    /// Display-name snapshot of whoever queued this track, for the panel footer.
    pub requester_name: String,
    /// Playback offset already elapsed before this track's input starts
    /// (non-zero only for a seek replacement). The real position is always
    /// the input's position plus this offset.
    pub start_offset: Duration,
    /// Whether this is a seek replacement rather than a genuinely new track.
    pub is_seek: bool,
    /// Whether this track is the pre-emptive duplicate of the track ahead of
    /// it in the queue that `LoopMode::Track` keeps, rather than a genuinely
    /// distinct queue entry.
    pub is_loop_clone: bool,
}

impl TrackMeta {
    /// The same track, started afresh as a genuine queue entry.
    pub open spec fn is_fresh_copy(self, original: TrackMeta) -> bool {
        &&& self == (TrackMeta {
            start_offset: self.start_offset,
            is_seek: false,
            is_loop_clone: false,
            ..original
        })
        &&& self.start_offset@ == 0
    }

    /// The same track, started afresh as a pre-emptive loop clone.
    pub open spec fn is_clone_of(self, original: TrackMeta) -> bool {
        &&& self == (TrackMeta {
            start_offset: self.start_offset,
            is_seek: false,
            is_loop_clone: true,
            ..original
        })
        &&& self.start_offset@ == 0
    }

    /// The same track, taken up again at `target`.
    pub open spec fn is_seek_of(self, original: TrackMeta, target: Duration) -> bool {
        self == (TrackMeta { start_offset: target, is_seek: true, ..original })
    }

    /// A copy with the given offset and flags.
    fn copy_with(&self, start_offset: Duration, is_seek: bool, is_loop_clone: bool) -> (copy: Self)
        ensures
            copy == (TrackMeta { start_offset, is_seek, is_loop_clone, ..*self }),
    {
        TrackMeta {
            title: self.title.clone(),
            url: self.url.clone(),
            requested_by: self.requested_by,
            duration: self.duration,
            eq_filter: self.eq_filter.clone(),
            thumbnail: self.thumbnail.clone(),
            uploader: self.uploader.clone(),
            requester_name: self.requester_name.clone(),
            start_offset,
            is_seek,
            is_loop_clone,
        }
    }

    /// The same track, started afresh as a genuine queue entry.
    pub fn fresh_copy(&self) -> (copy: Self)
        ensures
            copy.is_fresh_copy(*self),
    {
        self.copy_with(Duration::zero(), false, false)
    }

    /// The same track, started afresh as a pre-emptive loop clone.
    pub fn loop_clone(&self) -> (copy: Self)
        ensures
            copy.is_clone_of(*self),
    {
        self.copy_with(Duration::zero(), false, true)
    }

    /// The same track, taken up again at `target`.
    pub fn seeked(&self, target: Duration) -> (copy: Self)
        ensures
            copy.is_seek_of(*self, target),
    {
        self.copy_with(target, true, self.is_loop_clone)
    }
}

impl Clone for TrackMeta {
    fn clone(&self) -> (copy: Self)
        ensures
            copy == *self,
    {
        self.copy_with(self.start_offset, self.is_seek, self.is_loop_clone)
    }
}

/// Seconds between two redraws of the Now Playing panel while a track plays,
/// so its progress bar visibly advances.
pub const PROGRESS_TICK_INTERVAL: u64 = 15;

/// Seconds the bot waits, after everyone leaves its voice channel, before
/// auto-leaving.
pub const EMPTY_CHANNEL_LEAVE_DELAY: u64 = 30;

/// Seconds the bot waits, after its queue drains to empty, before
/// auto-leaving (independent of `EMPTY_CHANNEL_LEAVE_DELAY`).
pub const IDLE_QUEUE_LEAVE_DELAY: u64 = 600;

/// Loop mode for a guild's playback.
#[derive(Clone, Copy, Debug, PartialEq, Eq, Structural)]
pub enum LoopMode {
    Off,
    Track,
    Queue,
}

impl LoopMode {
    /// The mode that follows: `Off -> Track -> Queue -> Off`.
    pub open spec fn following(self) -> LoopMode {
        match self {
            LoopMode::Off => LoopMode::Track,
            LoopMode::Track => LoopMode::Queue,
            LoopMode::Queue => LoopMode::Off,
        }
    }

    /// The mode's caption.
    pub open spec fn caption(self) -> Seq<char> {
        match self {
            LoopMode::Off => "Loop: Off"@,
            LoopMode::Track => "Loop: Track"@,
            LoopMode::Queue => "Loop: Queue"@,
        }
    }

    /// `Off -> Track -> Queue -> Off`.
    pub fn cycle(self) -> (next: Self)
        ensures
            next == self.following(),
    {
        match self {
            LoopMode::Off => LoopMode::Track,
            LoopMode::Track => LoopMode::Queue,
            LoopMode::Queue => LoopMode::Off,
        }
    }

    /// The mode's caption on buttons and in replies.
    pub fn label(self) -> (text: &'static str)
        ensures
            text@ == self.caption(),
    {
        match self {
            LoopMode::Off => "Loop: Off",
            LoopMode::Track => "Loop: Track",
            LoopMode::Queue => "Loop: Queue",
        }
    }
}

impl Default for LoopMode {
    fn default() -> (mode: Self)
        ensures
            mode == LoopMode::Off,
    {
        LoopMode::Off
    }
}

/// Pressing the loop button three times leads back to the same mode, and no
/// fewer presses do.
pub proof fn law_loop_cycle_has_period_three(mode: LoopMode)
    ensures
        mode.following().following().following() == mode,
        mode.following() != mode,
        mode.following().following() != mode,
{
}

/// Playback and panel state tracked per guild. Channels and messages are
/// Discord ids; a background task is the number it was started under.
#[derive(Debug, PartialEq, Eq)]
pub struct GuildPlayerState {
    /// Where to post/update the Now Playing panel.
    pub text_channel: Option<u64>,
    /// The currently displayed panel message, if any.
    pub now_playing_message: Option<u64>,
    /// Whether the playback event handlers are already registered on this
    /// guild's call, to avoid stacking duplicates.
    pub panel_events_registered: bool,
    /// Pending empty-channel auto-leave timer, if any.
    pub empty_channel_leave_task: Option<u64>,
    /// This guild's current loop mode.
    pub loop_mode: LoopMode,
    /// Background task that periodically refreshes the panel while playing,
    /// so the progress bar advances between Play/End/button events.
    pub progress_ticker: Option<u64>,
    /// Pending queue-idle auto-leave timer, if any.
    pub idle_leave_task: Option<u64>,
    /// Whether this guild's queue is currently paused because every listener
    /// is deafened, so resume only ever reverts a pause this logic itself
    /// caused (never a user's manual pause).
    pub silence_auto_paused: bool,
    /// When a panel button press was last processed for this guild.
    pub last_button_press: Option<Duration>,
}

impl Default for GuildPlayerState {
    fn default() -> (state: Self)
        ensures
            state == (GuildPlayerState {
                text_channel: None,
                now_playing_message: None,
                panel_events_registered: false,
                empty_channel_leave_task: None,
                loop_mode: LoopMode::Off,
                progress_ticker: None,
                idle_leave_task: None,
                silence_auto_paused: false,
                last_button_press: None,
            }),
    {
        GuildPlayerState {
            text_channel: None,
            now_playing_message: None,
            panel_events_registered: false,
            empty_channel_leave_task: None,
            loop_mode: LoopMode::Off,
            progress_ticker: None,
            idle_leave_task: None,
            silence_auto_paused: false,
            last_button_press: None,
        }
    }
}

/// What stopping `task` takes: nothing if it is the one that is running,
/// otherwise aborting it.
pub open spec fn abort_of(task: Option<u64>, current: Option<u64>) -> Option<u64> {
    match task {
        Some(t) => if current == Some(t) {
            None
        } else {
            Some(t)
        },
        None => None,
    }
}

/// The task to abort for `task` to stop, unless it is the
/// currently-executing task itself.
///
/// The auto-leave timers clean up their guild, which stops every pending
/// timer -- including, when a timer is what's running, itself. A task cannot
/// meaningfully abort itself: it would be dropped at its next suspension
/// point, partway through the cleanup.
pub fn abort_unless_self(task: u64, current: Option<u64>) -> (abort: Option<u64>)
    ensures
        abort == abort_of(Some(task), current),
{
    match current {
        Some(id) => if id == task {
            None
        } else {
            Some(task)
        },
        None => Some(task),
    }
}

/// Forgets the guild's idle-leave timer, and names the task to abort for it
/// to stop.
pub fn stop_idle_leave_task(state: &mut GuildPlayerState, current: Option<u64>) -> (abort: Option<
    u64,
>)
    ensures
        *final(state) == (GuildPlayerState { idle_leave_task: None, ..*old(state) }),
        abort == abort_of(old(state).idle_leave_task, current),
{
    match state.idle_leave_task.take() {
        Some(task) => abort_unless_self(task, current),
        None => None,
    }
}

/// Forgets the guild's progress ticker, and names the task to abort for it
/// to stop.
pub fn stop_progress_ticker(state: &mut GuildPlayerState, current: Option<u64>) -> (abort: Option<
    u64,
>)
    ensures
        *final(state) == (GuildPlayerState { progress_ticker: None, ..*old(state) }),
        abort == abort_of(old(state).progress_ticker, current),
{
    match state.progress_ticker.take() {
        Some(task) => abort_unless_self(task, current),
        None => None,
    }
}

/// Stopping a task never aborts the task that does the stopping.
pub proof fn law_no_task_aborts_itself(task: Option<u64>, current: u64)
    ensures
        abort_of(task, Some(current)) != Some(current),
{
}

/// A copy of a track is the same song by the same requester, with the same
/// filter; only where it starts and what kind of queue entry it is differ.
pub proof fn law_copies_are_the_same_song(copy: TrackMeta, meta: TrackMeta, target: Duration)
    ensures
        copy.is_fresh_copy(meta) ==> {
            &&& copy.title == meta.title
            &&& copy.url == meta.url
            &&& copy.requested_by == meta.requested_by
            &&& copy.duration == meta.duration
            &&& copy.eq_filter == meta.eq_filter
            &&& copy.thumbnail == meta.thumbnail
            &&& copy.uploader == meta.uploader
            &&& copy.requester_name == meta.requester_name
            &&& copy.start_offset@ == 0
            &&& !copy.is_seek
            &&& !copy.is_loop_clone
        },
        copy.is_clone_of(meta) ==> {
            &&& copy.title == meta.title
            &&& copy.url == meta.url
            &&& copy.requested_by == meta.requested_by
            &&& copy.duration == meta.duration
            &&& copy.eq_filter == meta.eq_filter
            &&& copy.thumbnail == meta.thumbnail
            &&& copy.uploader == meta.uploader
            &&& copy.requester_name == meta.requester_name
            &&& copy.start_offset@ == 0
            &&& !copy.is_seek
            &&& copy.is_loop_clone
        },
        copy.is_seek_of(meta, target) ==> {
            &&& copy.title == meta.title
            &&& copy.url == meta.url
            &&& copy.requested_by == meta.requested_by
            &&& copy.duration == meta.duration
            &&& copy.eq_filter == meta.eq_filter
            &&& copy.thumbnail == meta.thumbnail
            &&& copy.uploader == meta.uploader
            &&& copy.requester_name == meta.requester_name
            &&& copy.start_offset == target
            &&& copy.is_seek
            &&& copy.is_loop_clone == meta.is_loop_clone
        },
{
}

/// The loop button goes from off to the track, to the queue, and off again;
/// each mode says its name.
pub proof fn law_loop_modes()
    ensures
        LoopMode::Off.following() == LoopMode::Track,
        LoopMode::Track.following() == LoopMode::Queue,
        LoopMode::Queue.following() == LoopMode::Off,
        LoopMode::Off.caption() == "Loop: Off"@,
        LoopMode::Track.caption() == "Loop: Track"@,
        LoopMode::Queue.caption() == "Loop: Queue"@,
{
}

/// Stopping a pending task aborts that very task, unless it is the one that
/// is running; where nothing is pending, nothing is aborted.
pub proof fn law_stopping_aborts_the_pending_task(task: u64, current: Option<u64>)
    ensures
        current != Some(task) ==> abort_of(Some(task), current) == Some(task),
        current == Some(task) ==> abort_of(Some(task), current) is None,
        abort_of(None, current) is None,
{
}

} // verus!
