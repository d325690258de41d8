//! Keeping the Now Playing panel's message current, and its buttons.
//!
//! No flag says whether something is playing: the panel is always rebuilt
//! from the queue as it stands.

use std::sync::Arc;

use vstd::prelude::*;

use crate::discord;
use crate::discord::{ActionRow, ActionRowView, Embed, EmbedView};
use crate::player::custom_id;
use crate::player::state::{GuildPlayerState, LoopMode, TrackMeta};
use crate::player::ui;
use crate::player::ui::{
    control_panel_components, disabled_control_panel_components, finished_embed, now_playing_embed,
    TrackStatus, PANEL_SEEK_STEP_SECS,
};
use crate::text;
use crate::text::same_text;
use crate::time::{Duration, MAX_NANOS};

verus! {

/// Silent per-guild cooldown of every panel button press, in milliseconds,
/// so a burst of clicks doesn't hammer the Discord API.
pub const BUTTON_COOLDOWN: u64 = 1500;

/// Why a request to Discord failed: it was answered with an HTTP status and
/// a Discord error code, or it was not answered.
#[derive(Clone, Copy, Debug, PartialEq, Eq, Structural)]
pub enum RequestError {
    Refused { status: u16, code: i64 },
    Unanswered,
}

/// Whether a failure means that the message (or its channel) is gone.
pub open spec fn gone(err: RequestError) -> bool {
    err matches RequestError::Refused { status, code } && (status == 404 || code == 10008 || code
        == 10003)
}

/// Whether `err` means the panel message (or its channel) is genuinely gone
/// -- a 404, or Discord error code `10008` (Unknown Message) / `10003`
/// (Unknown Channel) -- as opposed to a transient failure (a 502, a rate
/// limit, a network blip) that says nothing about whether the message still
/// exists.
pub fn is_not_found(err: &RequestError) -> (yes: bool)
    ensures
        yes == gone(*err),
{
    match err {
        RequestError::Refused { status, code } => *status == 404 || *code == 10008 || *code
            == 10003,
        RequestError::Unanswered => false,
    }
}

/// Where a guild's panel goes: its channel, the message to edit if one is on
/// record, and the loop mode to show.
#[derive(Clone, Copy, Debug, PartialEq, Eq, Structural)]
pub struct PanelTarget {
    pub channel_id: u64,
    pub message_id: Option<u64>,
    pub loop_mode: LoopMode,
}

/// Where a guild's panel goes, if it has a text channel.
pub open spec fn target_of(state: GuildPlayerState) -> Option<PanelTarget> {
    match state.text_channel {
        Some(channel_id) => Some(
            PanelTarget {
                channel_id,
                message_id: state.now_playing_message,
                loop_mode: state.loop_mode,
            },
        ),
        None => None,
    }
}

/// Where the guild's panel goes, if it has a text channel.
pub fn panel_target(state: &GuildPlayerState) -> (target: Option<PanelTarget>)
    ensures
        target == target_of(*state),
{
    match state.text_channel {
        Some(channel_id) => Some(
            PanelTarget {
                channel_id,
                message_id: state.now_playing_message,
                loop_mode: state.loop_mode,
            },
        ),
        None => None,
    }
}

/// The panel's embed and rows of buttons.
#[derive(Debug, PartialEq, Eq)]
pub struct Panel {
    pub embed: Embed,
    pub components: Vec<ActionRow>,
}

/// What the panel shows of a queue whose tracks are `queue`: the first one,
/// with the second one's title, out of as many as there are.
pub open spec fn panel_embed(
    queue: Seq<Arc<TrackMeta>>,
    status: Option<TrackStatus>,
    loop_mode: LoopMode,
) -> EmbedView {
    if queue.len() == 0 {
        ui::notice_view("⏹️ Playback Finished"@, "Thanks for listening!"@)
    } else {
        ui::playing_view(
            *queue[0],
            status,
            loop_mode,
            if queue.len() > 1 {
                Some(queue[1].title@)
            } else {
                None
            },
            1,
            queue.len(),
        )
    }
}

/// The panel's buttons for a queue whose tracks are `queue`.
pub open spec fn panel_rows(
    queue: Seq<Arc<TrackMeta>>,
    status: Option<TrackStatus>,
    loop_mode: LoopMode,
) -> Seq<ActionRowView> {
    if queue.len() == 0 {
        seq![ui::transport_row(false, true), ui::queue_row(loop_mode, true)]
    } else {
        seq![
            ui::transport_row(ui::is_paused(status), false),
            ui::queue_row(loop_mode, false),
        ]
    }
}

/// Rebuilds the panel from the queue's tracks and what the audio driver
/// reports of the first one. No play history is kept, so the current track
/// is always shown as position 1 of the queue's remaining length.
pub fn refresh_panel(
    queue: &Vec<Arc<TrackMeta>>,
    status: Option<TrackStatus>,
    loop_mode: LoopMode,
) -> (panel: Panel)
    requires
        queue@.len() > 0 ==> ui::real_position(*queue@[0], status) <= MAX_NANOS,
    ensures
        panel.embed@ == panel_embed(queue@, status, loop_mode),
        discord::rows(panel.components@) == panel_rows(queue@, status, loop_mode),
{
    if queue.len() == 0 {
        return Panel {
            embed: finished_embed(),
            components: disabled_control_panel_components(loop_mode),
        };
    }
    let next_title = if queue.len() > 1 {
        Some(queue[1].title.as_str())
    } else {
        None
    };
    Panel {
        embed: now_playing_embed(&queue[0], status, loop_mode, next_title, 1, queue.len()),
        components: control_panel_components(status, loop_mode),
    }
}

/// How posting the panel went.
#[derive(Clone, Copy, Debug, PartialEq, Eq, Structural)]
pub enum PanelOutcome {
    /// The message on record was edited.
    Edited,
    /// Editing the message on record failed.
    EditFailed(RequestError),
    /// A new message was sent.
    Sent(u64),
    /// Sending a new message failed.
    SendFailed,
}

/// The panel message on record after an attempt to post the panel.
pub open spec fn message_after(message: Option<u64>, outcome: PanelOutcome) -> Option<u64> {
    match outcome {
        PanelOutcome::EditFailed(err) if gone(err) => None,
        PanelOutcome::Sent(id) => Some(id),
        _ => message,
    }
}

/// Records how posting the panel went: a new message's id, or that the old
/// message is genuinely gone. A transient failure leaves the record alone.
pub fn record_panel(state: &mut GuildPlayerState, outcome: &PanelOutcome)
    ensures
        *final(state) == (GuildPlayerState {
            now_playing_message: message_after(old(state).now_playing_message, *outcome),
            ..*old(state)
        }),
{
    match outcome {
        PanelOutcome::EditFailed(err) => {
            if is_not_found(err) {
                state.now_playing_message = None;
            }
        },
        PanelOutcome::Sent(id) => {
            state.now_playing_message = Some(*id);
        },
        _ => {},
    }
}

/// The panel never splits in two: as long as the message on record has not
/// been reported gone, the next refresh edits that same message instead of
/// sending another one.
pub proof fn law_panel_message_is_reused(state: GuildPlayerState, outcome: PanelOutcome, id: u64)
    requires
        state.now_playing_message == Some(id),
        outcome is Edited || (outcome matches PanelOutcome::EditFailed(err) && !gone(err)),
    ensures
        ({
            let after = GuildPlayerState {
                now_playing_message: message_after(state.now_playing_message, outcome),
                ..state
            };
            target_of(after) == target_of(state)
        }),
{
}

/// Once a message has been sent it is the one that the next refresh edits,
/// and once it is gone the next refresh sends a new one.
pub proof fn law_panel_message_is_replaced_only_when_gone(id: u64, err: RequestError)
    ensures
        message_after(None, PanelOutcome::Sent(id)) == Some(id),
        message_after(Some(id), PanelOutcome::EditFailed(err)) == (if gone(err) {
            None
        } else {
            Some(id)
        }),
{
}

/// A button of the panel.
#[derive(Clone, Copy, Debug, PartialEq, Eq, Structural)]
pub enum PanelButton {
    PauseResume,
    Skip,
    Loop,
    SeekBack,
    SeekForward,
    Shuffle,
}

impl PanelButton {
    /// The button's custom id.
    pub open spec fn id(self) -> Seq<char> {
        match self {
            PanelButton::PauseResume => custom_id::PAUSE_RESUME@,
            PanelButton::Skip => custom_id::SKIP@,
            PanelButton::Loop => custom_id::LOOP@,
            PanelButton::SeekBack => custom_id::SEEK_BACK@,
            PanelButton::SeekForward => custom_id::SEEK_FORWARD@,
            PanelButton::Shuffle => custom_id::SHUFFLE@,
        }
    }

    /// The button with the given custom id, if it is one of the panel's.
    pub fn from_id(id: &str) -> (button: Option<PanelButton>)
        ensures
            match button {
                Some(b) => b.id() == id@,
                None => forall|b: PanelButton| #[trigger] b.id() != id@,
            },
    {
        if same_text(id, custom_id::PAUSE_RESUME) {
            Some(PanelButton::PauseResume)
        } else if same_text(id, custom_id::SKIP) {
            Some(PanelButton::Skip)
        } else if same_text(id, custom_id::LOOP) {
            Some(PanelButton::Loop)
        } else if same_text(id, custom_id::SEEK_BACK) {
            Some(PanelButton::SeekBack)
        } else if same_text(id, custom_id::SEEK_FORWARD) {
            Some(PanelButton::SeekForward)
        } else if same_text(id, custom_id::SHUFFLE) {
            Some(PanelButton::Shuffle)
        } else {
            None
        }
    }
}

/// No two buttons of the panel share a custom id, so a press names one
/// button only.
pub proof fn law_button_ids_are_distinct(a: PanelButton, b: PanelButton)
    requires
        a != b,
    ensures
        a.id() != b.id(),
{
    reveal_strlit("np:pause_resume");
    reveal_strlit("np:skip");
    reveal_strlit("np:loop");
    reveal_strlit("np:seek_back");
    reveal_strlit("np:seek_forward");
    reveal_strlit("np:shuffle");
    assert("np:pause_resume"@.len() == 15);
    assert("np:skip"@.len() == 7);
    assert("np:loop"@.len() == 7);
    assert("np:seek_back"@.len() == 12);
    assert("np:seek_forward"@.len() == 15);
    assert("np:shuffle"@.len() == 10);
    assert("np:skip"@[3] != "np:loop"@[3]);
    assert("np:pause_resume"@[3] != "np:seek_forward"@[3]);
}

/// Whether a press at `now` falls within the cooldown of the last one.
pub open spec fn on_cooldown(last: Option<Duration>, now: Duration) -> bool {
    last matches Some(l) && now@ < l@ + BUTTON_COOLDOWN * 1_000_000
}

/// What a component press calls for.
#[derive(Clone, Copy, Debug, PartialEq, Eq, Structural)]
pub enum Press {
    /// It is not for the panel: no answer at all.
    Ignore,
    /// It is acknowledged and dropped.
    Acknowledge,
    /// It is acknowledged, then carried out.
    Act(PanelButton),
}

/// Decides on a press of one of the Now Playing panel's buttons. A press
/// within `BUTTON_COOLDOWN` of the last one in the same guild is
/// acknowledged and dropped, silently.
pub fn handle_component_interaction(
    id: &str,
    in_guild: bool,
    state: Option<&mut GuildPlayerState>,
    now: Duration,
) -> (press: Press)
    ensures
        match press {
            Press::Act(b) => b.id() == id@ && in_guild && !(state matches Some(s) && on_cooldown(
                s.last_button_press,
                now,
            )),
            Press::Acknowledge => {
                &&& exists|b: PanelButton| #[trigger] b.id() == id@
                &&& in_guild
                &&& state matches Some(s) && on_cooldown(s.last_button_press, now)
            },
            Press::Ignore => !in_guild || forall|b: PanelButton| #[trigger] b.id() != id@,
        },
        state matches Some(s) ==> *final(s) == (if press is Act {
            GuildPlayerState { last_button_press: Some(now), ..*s }
        } else {
            *s
        }),
{
    let button = match PanelButton::from_id(id) {
        Some(button) => button,
        None => {
            return Press::Ignore;
        },
    };
    if !in_guild {
        return Press::Ignore;
    }
    if let Some(state) = state {
        if let Some(last) = state.last_button_press {
            if now.saturating_sub(last).shorter_than(Duration::from_millis(BUTTON_COOLDOWN)) {
                return Press::Acknowledge;
            }
        }
        state.last_button_press = Some(now);
    }
    Press::Act(button)
}

/// What becomes of the pre-emptive loop clone when the loop mode changes:
/// one is seeded at once on switching to `Track`, and a pending one is
/// dropped when switching away.
#[derive(Clone, Copy, Debug, PartialEq, Eq, Structural)]
pub enum CloneStep {
    Ensure,
    Remove,
}

/// The clone step that goes with a loop mode.
pub open spec fn clone_step(mode: LoopMode) -> CloneStep {
    if mode == LoopMode::Track {
        CloneStep::Ensure
    } else {
        CloneStep::Remove
    }
}

/// The clone step that goes with switching to `mode`.
pub fn clone_step_for(mode: LoopMode) -> (step: CloneStep)
    ensures
        step == clone_step(mode),
{
    if mode == LoopMode::Track {
        CloneStep::Ensure
    } else {
        CloneStep::Remove
    }
}

/// What a press that is carried out does to the guild's call.
#[derive(Clone, Copy, Debug, PartialEq, Eq, Structural)]
pub enum PanelAction {
    /// Seek by so many seconds.
    Seek(i64),
    /// Drop a pending loop clone, then skip the current track.
    Skip,
    /// Pause the current track, or resume it if it is paused.
    TogglePause,
    /// Shuffle what is upcoming.
    Shuffle,
    /// Show the new loop mode; keep the loop clone in step with it, if the
    /// guild's mode did change.
    Loop { mode: LoopMode, clone: Option<CloneStep> },
}

/// Turns a press into what it does to the guild's call; a press of the loop
/// button moves the guild on to the next loop mode.
pub fn panel_action(button: PanelButton, state: Option<&mut GuildPlayerState>) -> (action:
    PanelAction)
    ensures
        action == (match button {
            PanelButton::SeekBack => PanelAction::Seek((-PANEL_SEEK_STEP_SECS) as i64),
            PanelButton::SeekForward => PanelAction::Seek(PANEL_SEEK_STEP_SECS),
            PanelButton::Skip => PanelAction::Skip,
            PanelButton::PauseResume => PanelAction::TogglePause,
            PanelButton::Shuffle => PanelAction::Shuffle,
            PanelButton::Loop => match state {
                Some(s) => PanelAction::Loop {
                    mode: s.loop_mode.following(),
                    clone: Some(clone_step(s.loop_mode.following())),
                },
                None => PanelAction::Loop { mode: LoopMode::Off, clone: None },
            },
        }),
        state matches Some(s) ==> *final(s) == (if button == PanelButton::Loop {
            GuildPlayerState { loop_mode: s.loop_mode.following(), ..*s }
        } else {
            *s
        }),
{
    match button {
        PanelButton::SeekBack => PanelAction::Seek(-PANEL_SEEK_STEP_SECS),
        PanelButton::SeekForward => PanelAction::Seek(PANEL_SEEK_STEP_SECS),
        PanelButton::Skip => PanelAction::Skip,
        PanelButton::PauseResume => PanelAction::TogglePause,
        PanelButton::Shuffle => PanelAction::Shuffle,
        PanelButton::Loop => match state {
            Some(state) => {
                state.loop_mode = state.loop_mode.cycle();
                PanelAction::Loop {
                    mode: state.loop_mode,
                    clone: Some(clone_step_for(state.loop_mode)),
                }
            },
            None => PanelAction::Loop { mode: LoopMode::default(), clone: None },
        },
    }
}

/// What pausing or resuming comes down to.
#[derive(Clone, Copy, Debug, PartialEq, Eq, Structural)]
pub enum PauseStep {
    /// Nothing is playing.
    Nothing,
    Pause,
    Resume,
}

/// Decides between pausing and resuming: `paused` tells whether the current
/// track is known to be paused, if there is one.
pub fn toggle_pause(paused: Option<bool>) -> (step: PauseStep)
    ensures
        step == (match paused {
            None => PauseStep::Nothing,
            Some(true) => PauseStep::Resume,
            Some(false) => PauseStep::Pause,
        }),
{
    match paused {
        None => PauseStep::Nothing,
        Some(paused) => if paused {
            PauseStep::Resume
        } else {
            PauseStep::Pause
        },
    }
}

/// What came of a panel action.
#[derive(Debug, PartialEq, Eq)]
pub enum ActionOutcome {
    /// A seek was carried out, or why it was not.
    Sought(Result<Duration, String>),
    /// A skip: whether there was a track to skip, and the driver's answer.
    Skipped { had_current: bool, result: Result<(), String> },
    /// A pause or resume: whether there was a track, and the driver's answer.
    Toggled { had_current: bool, result: Result<(), String> },
    /// How many tracks were upcoming for the shuffle.
    Shuffled(usize),
    /// The loop mode that is shown.
    LoopSet(LoopMode),
}

/// The note for the driver's answer.
pub open spec fn driver_note(result: Result<(), String>) -> Option<Seq<char>> {
    match result {
        Ok(_) => None,
        Err(e) => Some("⚠️ "@ + e@),
    }
}

/// The note that whoever pressed the button gets, if any.
pub open spec fn note_for(outcome: ActionOutcome) -> Option<Seq<char>> {
    match outcome {
        ActionOutcome::Sought(Ok(_)) => None,
        ActionOutcome::Sought(Err(e)) => Some(e@),
        ActionOutcome::Skipped { had_current, result } => if had_current {
            driver_note(result)
        } else {
            Some("Nothing to skip."@)
        },
        ActionOutcome::Toggled { had_current, result } => if had_current {
            driver_note(result)
        } else {
            Some("Nothing is playing."@)
        },
        ActionOutcome::Shuffled(count) => if count == 0 {
            Some("There's nothing queued up next to shuffle."@)
        } else {
            None
        },
        ActionOutcome::LoopSet(mode) => Some("🔁 "@ + mode.caption()),
    }
}

/// The warning for the driver's answer, if it refused.
fn driver_warning(result: &Result<(), String>) -> (note: Option<String>)
    ensures
        text::opt_text(note) == driver_note(*result),
{
    match result {
        Ok(_) => None,
        Err(e) => {
            let mut note = "⚠️ ".to_owned();
            note.append(e.as_str());
            Some(note)
        },
    }
}

/// The note that whoever pressed the button gets, visible to them only.
pub fn action_note(outcome: &ActionOutcome) -> (note: Option<String>)
    ensures
        text::opt_text(note) == note_for(*outcome),
{
    match outcome {
        ActionOutcome::Sought(Ok(_)) => None,
        ActionOutcome::Sought(Err(e)) => Some(e.clone()),
        ActionOutcome::Skipped { had_current, result } => if *had_current {
            driver_warning(result)
        } else {
            Some("Nothing to skip.".to_owned())
        },
        ActionOutcome::Toggled { had_current, result } => if *had_current {
            driver_warning(result)
        } else {
            Some("Nothing is playing.".to_owned())
        },
        ActionOutcome::Shuffled(count) => if *count == 0 {
            Some("There's nothing queued up next to shuffle.".to_owned())
        } else {
            None
        },
        ActionOutcome::LoopSet(mode) => {
            let mut note = "🔁 ".to_owned();
            note.append(mode.label());
            Some(note)
        },
    }
}

/// A press is dropped exactly within the 1.5 seconds after the last one that
/// was carried out; the first press of a guild never is.
pub proof fn law_cooldown_ends(last: Duration, now: Duration)
    ensures
        on_cooldown(Some(last), now) == (now@ < last@ + 1_500_000_000),
        !on_cooldown(None, now),
{
}

/// The first track of a queue.
spec fn front(queue: Seq<Arc<TrackMeta>>) -> TrackMeta {
    *queue[0]
}

/// The panel shows the first track of the queue as the driver reports it:
/// whether it is paused, its start offset plus the reported position, the
/// reported volume, what comes next, and how long the queue is.
pub proof fn law_panel_shows_the_reported_track(
    queue: Seq<Arc<TrackMeta>>,
    status: TrackStatus,
    loop_mode: LoopMode,
)
    requires
        queue.len() > 0,
    ensures
        ({
            let embed = panel_embed(queue, Some(status), loop_mode);
            let meta = *queue[0];
            let position = meta.start_offset@ + status.position@;
            let total = match meta.duration {
                Some(d) => d@,
                None => 0,
            };
            &&& embed.title == "Now playing music:"@
            &&& embed.description == "**By:** "@ + (match meta.uploader {
                Some(name) => name@,
                None => "Unknown Artist"@,
            }) + "\n\u{200b}\n"@ + (if status.paused {
                "⏸️ Paused"@
            } else {
                "▶️ Playing"@
            }) + ":\n**"@ + meta.title@ + "**\n[[Link to YouTube]]("@ + meta.url@ + ")"@
            &&& embed.fields[0].value == "\u{200b}\n`"@ + ui::clock_text(position)
                + "`\u{200b}`   "@ + ui::bar_text(position, total) + "   `\u{200b}`"@
                + ui::clock_text(total) + "`"@
            &&& queue.len() == 1 ==> embed.fields.len() == 1
            &&& queue.len() > 1 ==> {
                &&& embed.fields.len() == 2
                &&& embed.fields[1].name == "⏭️ Up Next"@
                &&& embed.fields[1].value == queue[1].title@
            }
            &&& embed.footer == Some(
                "Requested by: "@ + meta.requester_name@ + " | 🎶 Queue: "@ + text::nat_text(1)
                    + "/"@ + text::nat_text(queue.len()) + " | 🔊 Volume: "@ + text::int_text(
                    status.volume_pct as int,
                ) + "%"@ + (match loop_mode {
                    LoopMode::Off => ""@,
                    LoopMode::Track => " | 🔁 Loop: Track"@,
                    LoopMode::Queue => " | 🔁 Loop: Queue"@,
                }) + (match meta.eq_filter {
                    Some(_) => " | 🎧 Hi-Fi"@,
                    None => ""@,
                }),
            )
        }),
{
    ui::law_panel_says_what_is_reported(
        front(queue),
        status,
        loop_mode,
        if queue.len() > 1 {
            Some(queue[1].title@)
        } else {
            None
        },
        1,
        queue.len(),
    );
}

/// Without a report the panel shows the first track as playing from its
/// start at full volume; without a track it says that playback is over.
pub proof fn law_panel_without_a_report(
    queue: Seq<Arc<TrackMeta>>,
    status: TrackStatus,
    loop_mode: LoopMode,
)
    requires
        !status.paused,
        status.position@ == 0,
        status.volume_pct == 100,
    ensures
        panel_embed(queue, None, loop_mode) == panel_embed(queue, Some(status), loop_mode),
        queue.len() == 0 ==> {
            let embed = panel_embed(queue, Some(status), loop_mode);
            embed.title == "⏹️ Playback Finished"@ && embed.description == "Thanks for listening!"@
                && embed.fields.len() == 0 && embed.footer is None
        },
{
    if queue.len() > 0 {
        ui::law_panel_without_a_report(
            front(queue),
            status,
            loop_mode,
            if queue.len() > 1 {
                Some(queue[1].title@)
            } else {
                None
            },
            1,
            queue.len(),
        );
    }
}

/// The buttons are in reach exactly while something is in the queue, and the
/// middle one offers to resume exactly while the driver reports a pause.
pub proof fn law_panel_buttons_follow_the_queue(
    queue: Seq<Arc<TrackMeta>>,
    status: Option<TrackStatus>,
    loop_mode: LoopMode,
)
    ensures
        ({
            let rows = panel_rows(queue, status, loop_mode);
            let transport = rows[0]->Buttons_0;
            let queueing = rows[1]->Buttons_0;
            &&& rows.len() == 2
            &&& rows[0] is Buttons
            &&& rows[1] is Buttons
            &&& transport.len() == 3
            &&& queueing.len() == 3
            &&& forall|i: int|
                0 <= i < 3 ==> (#[trigger] transport[i]).disabled == (queue.len() == 0)
            &&& forall|i: int|
                0 <= i < 3 ==> (#[trigger] queueing[i]).disabled == (queue.len() == 0)
            &&& transport[0].custom_id == "np:seek_back"@
            &&& transport[1].custom_id == "np:pause_resume"@
            &&& transport[2].custom_id == "np:seek_forward"@
            &&& queueing[0].custom_id == "np:loop"@
            &&& queueing[1].custom_id == "np:skip"@
            &&& queueing[2].custom_id == "np:shuffle"@
            &&& transport[1].emoji == Some(
                if queue.len() > 0 && (status matches Some(s) && s.paused) {
                    '▶'
                } else {
                    '⏸'
                },
            )
            &&& queueing[0].label == Some(
                match loop_mode {
                    LoopMode::Off => "Loop: Off"@,
                    LoopMode::Track => "Loop: Track"@,
                    LoopMode::Queue => "Loop: Queue"@,
                },
            )
        }),
{
}

/// A message is gone if Discord answers that it is not there, by status or
/// by code; no other failure says so.
pub proof fn law_gone_messages(err: RequestError)
    ensures
        err is Unanswered ==> !gone(err),
        err matches RequestError::Refused { status, code } ==> (gone(err) <==> status == 404
            || code == 10008 || code == 10003),
{
}

/// The panel goes to the guild's text channel, into the message on record,
/// with the guild's loop mode; a guild without a text channel has no panel.
pub proof fn law_panel_goes_to_the_text_channel(state: GuildPlayerState)
    ensures
        target_of(state) is Some <==> state.text_channel is Some,
        target_of(state) matches Some(target) ==> {
            &&& state.text_channel == Some(target.channel_id)
            &&& target.message_id == state.now_playing_message
            &&& target.loop_mode == state.loop_mode
        },
{
}

/// What is on record of the panel's message after each outcome: a new
/// message replaces it, a message that is gone is forgotten, and nothing
/// else changes it.
pub proof fn law_panel_record(message: Option<u64>, id: u64, err: RequestError)
    ensures
        message_after(message, PanelOutcome::Sent(id)) == Some(id),
        message_after(message, PanelOutcome::Edited) == message,
        message_after(message, PanelOutcome::SendFailed) == message,
        gone(err) ==> message_after(message, PanelOutcome::EditFailed(err)) is None,
        !gone(err) ==> message_after(message, PanelOutcome::EditFailed(err)) == message,
{
}

/// Each button has the id it is shown with.
pub proof fn law_button_ids()
    ensures
        PanelButton::PauseResume.id() == "np:pause_resume"@,
        PanelButton::Skip.id() == "np:skip"@,
        PanelButton::Loop.id() == "np:loop"@,
        PanelButton::SeekBack.id() == "np:seek_back"@,
        PanelButton::SeekForward.id() == "np:seek_forward"@,
        PanelButton::Shuffle.id() == "np:shuffle"@,
{
}

/// A loop clone is kept while one track is looped, and in no other mode.
pub proof fn law_loop_clone_is_kept_for_the_track_mode(mode: LoopMode)
    ensures
        clone_step(mode) is Ensure <==> mode == LoopMode::Track,
        clone_step(mode) is Remove <==> mode != LoopMode::Track,
{
}

/// Whoever pressed a button hears of it exactly if something went wrong or
/// the loop mode changed, and then what.
pub proof fn law_notes_say_what_happened(count: usize, error: String, mode: LoopMode, sought: Duration)
    ensures
        note_for(ActionOutcome::Sought(Ok(sought))) is None,
        note_for(ActionOutcome::Sought(Err(error))) == Some(error@),
        note_for(ActionOutcome::Skipped { had_current: true, result: Ok(()) }) is None,
        note_for(ActionOutcome::Skipped { had_current: true, result: Err(error) }) == Some(
            "⚠️ "@ + error@,
        ),
        note_for(ActionOutcome::Skipped { had_current: false, result: Ok(()) }) == Some(
            "Nothing to skip."@,
        ),
        note_for(ActionOutcome::Skipped { had_current: false, result: Err(error) }) == Some(
            "Nothing to skip."@,
        ),
        note_for(ActionOutcome::Toggled { had_current: true, result: Ok(()) }) is None,
        note_for(ActionOutcome::Toggled { had_current: true, result: Err(error) }) == Some(
            "⚠️ "@ + error@,
        ),
        note_for(ActionOutcome::Toggled { had_current: false, result: Ok(()) }) == Some(
            "Nothing is playing."@,
        ),
        note_for(ActionOutcome::Toggled { had_current: false, result: Err(error) }) == Some(
            "Nothing is playing."@,
        ),
        count > 0 ==> note_for(ActionOutcome::Shuffled(count)) is None,
        note_for(ActionOutcome::Shuffled(0)) == Some(
            "There's nothing queued up next to shuffle."@,
        ),
        note_for(ActionOutcome::LoopSet(LoopMode::Off)) == Some("🔁 "@ + "Loop: Off"@),
        note_for(ActionOutcome::LoopSet(LoopMode::Track)) == Some("🔁 "@ + "Loop: Track"@),
        note_for(ActionOutcome::LoopSet(LoopMode::Queue)) == Some("🔁 "@ + "Loop: Queue"@),
{
}

} // verus!
