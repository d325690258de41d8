//! Who is listening: leaving when left alone, and pausing while every
//! listener is deafened.

use vstd::prelude::*;

use crate::player::state;
use crate::player::state::{abort_unless_self, GuildPlayerState};

verus! {

/// Somebody's voice state in a guild.
#[derive(Clone, Copy, Debug, PartialEq, Eq, Structural)]
pub struct VoiceState {
    pub user_id: u64,
    pub channel_id: Option<u64>,
    /// Whether this is known to be a bot.
    pub is_bot: bool,
    pub self_deaf: bool,
    pub deaf: bool,
}

/// Whether a voice state is that of a human in `channel`.
pub open spec fn listens(vs: VoiceState, bot_id: u64, channel: u64) -> bool {
    vs.channel_id == Some(channel) && vs.user_id != bot_id && !vs.is_bot
}

/// The humans in `channel`.
pub open spec fn listeners(states: Seq<VoiceState>, bot_id: u64, channel: u64) -> Seq<VoiceState> {
    states.filter(|vs: VoiceState| listens(vs, bot_id, channel))
}

/// Whether a voice state hears nothing.
pub open spec fn deafened(vs: VoiceState) -> bool {
    vs.self_deaf || vs.deaf
}

/// Whether somebody is there and nobody hears anything.
pub open spec fn all_deaf(humans: Seq<VoiceState>) -> bool {
    humans.len() > 0 && forall|i: int| 0 <= i < humans.len() ==> deafened(#[trigger] humans[i])
}

/// How many humans are in the bot's channel, and whether every one of them
/// is deafened.
pub fn count_listeners(states: &Vec<VoiceState>, bot_id: u64, channel: u64) -> (count: (usize, bool))
    ensures
        count.0 == listeners(states@, bot_id, channel).len(),
        count.1 == all_deaf(listeners(states@, bot_id, channel)),
{
    let mut humans: usize = 0;
    let mut none_hears: bool = true;
    let mut i: usize = 0;
    proof {
        reveal(Seq::filter);
        assert(states@.take(0) =~= Seq::empty());
    }
    while i < states.len()
        invariant
            i <= states@.len(),
            humans <= i,
            humans == listeners(states@.take(i as int), bot_id, channel).len(),
            none_hears == (forall|k: int|
                0 <= k < humans ==> deafened(
                    #[trigger] listeners(states@.take(i as int), bot_id, channel)[k],
                )),
        decreases states@.len() - i,
    {
        let ghost before = listeners(states@.take(i as int), bot_id, channel);
        let ghost after = listeners(states@.take(i + 1), bot_id, channel);
        proof {
            reveal(Seq::filter);
            assert(states@.take(i + 1).drop_last() =~= states@.take(i as int));
            assert(states@.take(i + 1).last() == states@[i as int]);
            assert(after == (if listens(states@[i as int], bot_id, channel) {
                before.push(states@[i as int])
            } else {
                before
            }));
            assert(forall|k: int| 0 <= k < before.len() ==> after[k] == #[trigger] before[k]);
        }
        let vs = &states[i];
        let here = match vs.channel_id {
            Some(id) => id == channel,
            None => false,
        };
        if here && vs.user_id != bot_id && !vs.is_bot {
            assert(after[humans as int] == *vs);
            humans += 1;
            if !(vs.self_deaf || vs.deaf) {
                none_hears = false;
            }
        }
        i += 1;
    }
    assert(states@.take(i as int) =~= states@);
    (humans, humans > 0 && none_hears)
}

/// A notice in the guild's text channel.
#[derive(Clone, Copy, Debug, PartialEq, Eq, Structural)]
pub enum Notice {
    EveryoneLeft,
    WelcomeBack,
}

impl Notice {
    /// The notice's text.
    pub open spec fn words(self) -> Seq<char> {
        match self {
            Notice::EveryoneLeft => "Everyone left... I'll leave automatically in 30 seconds."@,
            Notice::WelcomeBack => "Welcome back! Canceling auto-leave."@,
        }
    }

    /// The notice's text.
    pub fn text(self) -> (text: &'static str)
        ensures
            text@ == self.words(),
    {
        match self {
            Notice::EveryoneLeft => "Everyone left... I'll leave automatically in 30 seconds.",
            Notice::WelcomeBack => "Welcome back! Canceling auto-leave.",
        }
    }
}

/// A change of somebody's voice state, and where the bot itself stands.
#[derive(Clone, Copy, Debug, PartialEq, Eq, Structural)]
pub struct VoiceUpdate {
    /// Whose voice state changed.
    pub user_id: u64,
    pub bot_id: u64,
    /// The channel they were in before, as far as is known.
    pub old_channel: Option<u64>,
    /// The channel they are in now.
    pub new_channel: Option<u64>,
    /// Whether the audio driver has a call in the guild.
    pub has_call: bool,
    /// The channel the bot is in, as far as is known.
    pub bot_channel: Option<u64>,
}

/// What follows from a change of who is listening.
#[derive(Clone, Copy, Debug, PartialEq, Eq)]
pub struct Reaction {
    /// A notice to post, with its channel.
    pub notice: Option<(u64, Notice)>,
    /// Whether the empty-channel timer is to be started.
    pub start_timer: bool,
    /// The task to abort for the empty-channel timer to stop.
    pub abort: Option<u64>,
    /// Whether the queue is to be paused (`true`) or resumed (`false`).
    pub pause: Option<bool>,
}

/// A notice for the guild's text channel, if it has one.
pub open spec fn notice_in(state: GuildPlayerState, notice: Notice) -> Option<(u64, Notice)> {
    match state.text_channel {
        Some(channel) => Some((channel, notice)),
        None => None,
    }
}

/// What follows when `count` humans are listening.
pub open spec fn reaction(
    state: GuildPlayerState,
    count: nat,
    silent: bool,
    unfinished: bool,
    current: Option<u64>,
) -> Reaction {
    let pending = state.empty_channel_leave_task is Some && unfinished;
    if count == 0 {
        Reaction {
            notice: if pending {
                None
            } else {
                notice_in(state, Notice::EveryoneLeft)
            },
            start_timer: !pending,
            abort: None,
            pause: None,
        }
    } else {
        Reaction {
            notice: if pending {
                notice_in(state, Notice::WelcomeBack)
            } else {
                None
            },
            start_timer: false,
            abort: if pending {
                state::abort_of(state.empty_channel_leave_task, current)
            } else {
                None
            },
            pause: if silent != state.silence_auto_paused {
                Some(silent)
            } else {
                None
            },
        }
    }
}

/// The guild's state after a change of who is listening.
pub open spec fn heard(state: GuildPlayerState, count: nat, silent: bool) -> GuildPlayerState {
    if count == 0 {
        state
    } else {
        GuildPlayerState { empty_channel_leave_task: None, silence_auto_paused: silent, ..state }
    }
}

/// Reacts to a change of who is listening: auto-leave when left alone,
/// cancel on rejoin; pause when every listener is deafened, resume the
/// moment at least one isn't -- but only ever resume a pause that this
/// itself caused. `unfinished` tells whether the empty-channel timer on
/// record, if there is one, is still pending.
pub fn react(
    state: &mut GuildPlayerState,
    human_count: usize,
    all_deafened: bool,
    unfinished: bool,
    current: Option<u64>,
) -> (outcome: Reaction)
    ensures
        outcome == reaction(*old(state), human_count as nat, all_deafened, unfinished, current),
        *final(state) == heard(*old(state), human_count as nat, all_deafened),
{
    if human_count == 0 {
        let pending = state.empty_channel_leave_task.is_some() && unfinished;
        let notice = match state.text_channel {
            Some(channel) => if pending {
                None
            } else {
                Some((channel, Notice::EveryoneLeft))
            },
            None => None,
        };
        return Reaction { notice, start_timer: !pending, abort: None, pause: None };
    }
    let mut notice: Option<(u64, Notice)> = None;
    let mut abort: Option<u64> = None;
    if let Some(task) = state.empty_channel_leave_task.take() {
        if unfinished {
            abort = abort_unless_self(task, current);
            if let Some(channel) = state.text_channel {
                notice = Some((channel, Notice::WelcomeBack));
            }
        }
    }
    let pause = if all_deafened && !state.silence_auto_paused {
        state.silence_auto_paused = true;
        Some(true)
    } else if !all_deafened && state.silence_auto_paused {
        state.silence_auto_paused = false;
        Some(false)
    } else {
        None
    };
    Reaction { notice, start_timer: false, abort, pause }
}

/// What a change of somebody's voice state calls for.
#[derive(Clone, Copy, Debug, PartialEq, Eq)]
pub enum VoiceStep {
    Ignore,
    /// The bot was disconnected: tear the guild down.
    Cleanup,
    React(Reaction),
}

/// What a change of somebody's voice state calls for.
pub open spec fn voice_step(
    update: VoiceUpdate,
    states: Seq<VoiceState>,
    state: Option<GuildPlayerState>,
    unfinished: bool,
    current: Option<u64>,
) -> VoiceStep {
    if update.user_id == update.bot_id {
        if update.old_channel is Some && update.new_channel is None && !update.has_call {
            VoiceStep::Cleanup
        } else {
            VoiceStep::Ignore
        }
    } else if !update.has_call {
        VoiceStep::Ignore
    } else {
        match (update.bot_channel, state) {
            (Some(channel), Some(s)) => {
                let humans = listeners(states, update.bot_id, channel);
                VoiceStep::React(reaction(s, humans.len(), all_deaf(humans), unfinished, current))
            },
            _ => VoiceStep::Ignore,
        }
    }
}

/// Reacts to a human joining/leaving the bot's voice channel (auto-leave
/// when left alone, cancel on rejoin) and to the bot's own voice state
/// changing unexpectedly (kicked, connection dropped). A disconnect counts
/// only if the audio driver also agrees that the call is gone, so an
/// internal reconnect isn't mistaken for one.
pub fn handle_voice_state_update(
    update: &VoiceUpdate,
    states: &Vec<VoiceState>,
    state: Option<&mut GuildPlayerState>,
    unfinished: bool,
    current: Option<u64>,
) -> (step: VoiceStep)
    ensures
        step == voice_step(
            *update,
            states@,
            match state {
                Some(s) => Some(*s),
                None => None,
            },
            unfinished,
            current,
        ),
        state matches Some(s) ==> *final(s) == (if step is React {
            let humans = listeners(states@, update.bot_id, update.bot_channel->0);
            heard(*s, humans.len(), all_deaf(humans))
        } else {
            *s
        }),
{
    if update.user_id == update.bot_id {
        return if update.old_channel.is_some() && update.new_channel.is_none() && !update.has_call {
            VoiceStep::Cleanup
        } else {
            VoiceStep::Ignore
        };
    }
    if !update.has_call {
        return VoiceStep::Ignore;
    }
    let channel = match update.bot_channel {
        Some(channel) => channel,
        None => {
            return VoiceStep::Ignore;
        },
    };
    let (human_count, all_deafened): (usize, bool) = count_listeners(
        states,
        update.bot_id,
        channel,
    );
    match state {
        Some(state) => VoiceStep::React(
            react(state, human_count, all_deafened, unfinished, current),
        ),
        None => VoiceStep::Ignore,
    }
}

/// Only a pause that was caused by silence is ever reverted, never a user's
/// manual pause; and after each change the flag says whether everybody who
/// is there is deafened.
pub proof fn law_resumes_only_its_own_pause(
    state: GuildPlayerState,
    count: nat,
    silent: bool,
    unfinished: bool,
    current: Option<u64>,
)
    ensures
        reaction(state, count, silent, unfinished, current).pause == Some(false)
            ==> state.silence_auto_paused,
        reaction(state, count, silent, unfinished, current).pause == Some(true)
            ==> !state.silence_auto_paused,
        count > 0 ==> heard(state, count, silent).silence_auto_paused == silent,
        count == 0 ==> reaction(state, count, silent, unfinished, current).pause is None,
{
}

/// The same situation reported again, with the timer that it called for
/// running, sets nothing more in motion: no second timer, notice, pause or
/// resume.
pub proof fn law_repeated_updates_are_harmless(
    state: GuildPlayerState,
    count: nat,
    silent: bool,
    unfinished: bool,
    current: Option<u64>,
    timer: u64,
)
    ensures
        ({
            let first = reaction(state, count, silent, unfinished, current);
            let settled = heard(state, count, silent);
            let after = if first.start_timer {
                GuildPlayerState { empty_channel_leave_task: Some(timer), ..settled }
            } else {
                settled
            };
            let second = reaction(
                after,
                count,
                silent,
                after.empty_channel_leave_task is Some,
                current,
            );
            second == (Reaction { notice: None, start_timer: false, abort: None, pause: None })
        }),
{
}

/// Somebody coming back cancels the pending departure, unless the departure
/// is itself what is running.
pub proof fn law_rejoin_cancels_departure(
    state: GuildPlayerState,
    count: nat,
    silent: bool,
    current: Option<u64>,
    timer: u64,
)
    requires
        count > 0,
        state.empty_channel_leave_task == Some(timer),
        current != Some(timer),
    ensures
        reaction(state, count, silent, true, current).abort == Some(timer),
        heard(state, count, silent).empty_channel_leave_task is None,
{
}

/// A listener is a human, other than the bot, in the bot's channel; whoever
/// is elsewhere or is a bot does not count.
pub proof fn law_listeners_are_counted(states: Seq<VoiceState>, vs: VoiceState, bot_id: u64, channel: u64)
    ensures
        listeners(Seq::empty(), bot_id, channel).len() == 0,
        vs.channel_id == Some(channel) && vs.user_id != bot_id && !vs.is_bot ==> listeners(
            states.push(vs),
            bot_id,
            channel,
        ) == listeners(states, bot_id, channel).push(vs),
        vs.channel_id != Some(channel) || vs.user_id == bot_id || vs.is_bot ==> listeners(
            states.push(vs),
            bot_id,
            channel,
        ) == listeners(states, bot_id, channel),
{
    reveal(Seq::filter);
    assert(states.push(vs).drop_last() =~= states);
}

/// Everybody is deafened exactly if somebody listens and everybody who does
/// is deafened, by themselves or by the server.
pub proof fn law_one_open_ear_is_enough(humans: Seq<VoiceState>, vs: VoiceState)
    ensures
        !all_deaf(Seq::empty()),
        all_deaf(seq![vs]) <==> vs.self_deaf || vs.deaf,
        humans.len() > 0 ==> (all_deaf(humans.push(vs)) <==> all_deaf(humans) && (vs.self_deaf
            || vs.deaf)),
{
    let one = seq![vs];
    if vs.self_deaf || vs.deaf {
        assert(all_deaf(one));
    } else {
        assert(!deafened(one[0]));
    }
    let more = humans.push(vs);
    assert(more[humans.len() as int] == vs);
    if humans.len() > 0 && all_deaf(more) {
        assert forall|i: int| 0 <= i < humans.len() implies deafened(#[trigger] humans[i]) by {
            assert(more[i] == humans[i]);
        }
    }
}

/// Left alone, the bot says once that it will leave, in its text channel if
/// it has one, and starts the timer; while that is running it does nothing
/// more. It neither pauses nor resumes, and forgets nothing.
pub proof fn law_left_alone_the_bot_prepares_to_leave(
    state: GuildPlayerState,
    silent: bool,
    unfinished: bool,
    current: Option<u64>,
)
    ensures
        ({
            let r = reaction(state, 0, silent, unfinished, current);
            let waiting = state.empty_channel_leave_task is Some && unfinished;
            &&& r.start_timer == !waiting
            &&& r.abort is None
            &&& r.pause is None
            &&& waiting ==> r.notice is None
            &&& !waiting ==> (match state.text_channel {
                Some(channel) => r.notice == Some((channel, Notice::EveryoneLeft)),
                None => r.notice is None,
            })
            &&& heard(state, 0, silent) == state
        }),
{
}

/// With somebody there no timer is started and none is kept. A pending one
/// is aborted and its end announced in the text channel; a finished one is
/// forgotten without a word.
pub proof fn law_company_ends_the_departure(
    state: GuildPlayerState,
    count: nat,
    silent: bool,
    unfinished: bool,
    current: Option<u64>,
)
    requires
        count > 0,
    ensures
        ({
            let r = reaction(state, count, silent, unfinished, current);
            let waiting = state.empty_channel_leave_task is Some && unfinished;
            &&& !r.start_timer
            &&& waiting && current != state.empty_channel_leave_task ==> r.abort
                == state.empty_channel_leave_task
            &&& !waiting || current == state.empty_channel_leave_task ==> r.abort is None
            &&& waiting ==> (match state.text_channel {
                Some(channel) => r.notice == Some((channel, Notice::WelcomeBack)),
                None => r.notice is None,
            })
            &&& !waiting ==> r.notice is None
            &&& silent && !state.silence_auto_paused ==> r.pause == Some(true)
            &&& !silent && state.silence_auto_paused ==> r.pause == Some(false)
            &&& silent == state.silence_auto_paused ==> r.pause is None
            &&& ({
                let after = heard(state, count, silent);
                &&& after.empty_channel_leave_task is None
                &&& after.silence_auto_paused == silent
                &&& after.text_channel == state.text_channel
                &&& after.now_playing_message == state.now_playing_message
                &&& after.panel_events_registered == state.panel_events_registered
                &&& after.loop_mode == state.loop_mode
                &&& after.progress_ticker == state.progress_ticker
                &&& after.idle_leave_task == state.idle_leave_task
                &&& after.last_button_press == state.last_button_press
            })
        }),
{
}

/// The bot's own disconnect tears the guild down if the call is gone too,
/// and nothing else that happens to the bot does anything.
pub proof fn law_own_disconnect_cleans_up(
    update: VoiceUpdate,
    states: Seq<VoiceState>,
    state: Option<GuildPlayerState>,
    unfinished: bool,
    current: Option<u64>,
)
    requires
        update.user_id == update.bot_id,
    ensures
        voice_step(update, states, state, unfinished, current) is Cleanup <==> update.old_channel
            is Some && update.new_channel is None && !update.has_call,
        voice_step(update, states, state, unfinished, current) !is React,
{
}

/// What anybody else does matters exactly while the bot is in a call, in a
/// known channel of a known guild; then the bot reacts to who listens there.
pub proof fn law_others_matter_during_a_call(
    update: VoiceUpdate,
    states: Seq<VoiceState>,
    state: Option<GuildPlayerState>,
    unfinished: bool,
    current: Option<u64>,
)
    requires
        update.user_id != update.bot_id,
    ensures
        ({
            let step = voice_step(update, states, state, unfinished, current);
            &&& step !is Cleanup
            &&& step is React <==> update.has_call && update.bot_channel is Some && state is Some
            &&& step matches VoiceStep::React(r) ==> ({
                let humans = listeners(states, update.bot_id, update.bot_channel->0);
                r == reaction(state->0, humans.len(), all_deaf(humans), unfinished, current)
            })
        }),
{
}

/// The notices' words.
pub proof fn law_notices_say_what_happens()
    ensures
        Notice::EveryoneLeft.words() == "Everyone left... I'll leave automatically in 30 seconds."@,
        Notice::WelcomeBack.words() == "Welcome back! Canceling auto-leave."@,
{
}

} // verus!
