//! `/join`, `/leave`, `/play`, `/playnext`, `/shuffle`, `/clear`, `/seek`,
//! `/stop`, `/skip`, `/loop`, `/queue` and `/nowplaying`.
//!
//! `/play` only accepts a direct URL: keyword search is `/search`.

use std::sync::Arc;

use vstd::prelude::*;

use crate::audio_source::FfmpegEqSource;
use crate::discord::{Colour, Reply};
use crate::models::{PlaylistTrack, UserProfile};
use crate::pagination::{Listing, ListingView};
use crate::player::events::{PanelUpdater, PanelUpdaterKind};
use crate::player::panel;
use crate::player::panel::{clone_step_for, CloneStep};
use crate::player::state;
use crate::player::state::{stop_progress_ticker, GuildPlayerState, LoopMode, TrackMeta};
use crate::player::track;
use crate::player::track::derive_youtube_thumbnail;
use crate::player::ui;
use crate::player::ui::format_duration;
use crate::text;
use crate::text::{nat_string, padded_string, push_text, same_text, starts_with};
use crate::time::{Duration, MAX_NANOS, NANOS_PER_SEC};

verus! {

/// The loudest a track can be played, in percent.
pub const MAX_VOLUME: i64 = 200;

/// A volume in percent, brought between 0 and `MAX_VOLUME`.
pub open spec fn volume_within(percent: int) -> int {
    if percent < 0 {
        0
    } else if percent > MAX_VOLUME {
        MAX_VOLUME as int
    } else {
        percent
    }
}

/// Brings a volume in percent between 0 and `MAX_VOLUME`.
pub fn clamp_volume(percent: i64) -> (volume: i64)
    ensures
        volume == volume_within(percent as int),
        0 <= volume <= MAX_VOLUME,
{
    if percent < 0 {
        0
    } else if percent > MAX_VOLUME {
        MAX_VOLUME
    } else {
        percent
    }
}

/// The volume in percent that a saved volume stands for: 100 where it could
/// not be loaded.
pub open spec fn volume_of(profile: Option<UserProfile>) -> int {
    match profile {
        Some(p) => volume_within(p.default_volume as int),
        None => 100,
    }
}

/// A user's saved default volume, in percent.
pub fn resolve_saved_volume(profile: Option<&UserProfile>) -> (percent: i64)
    ensures
        percent == volume_of(
            match profile {
                Some(p) => Some(*p),
                None => None,
            },
        ),
        0 <= percent <= MAX_VOLUME,
{
    match profile {
        Some(p) => clamp_volume(p.default_volume),
        None => 100,
    }
}

/// The filtergraph of a user's saved EQ mode: that of Hi-Fi if that is their
/// mode, and none otherwise.
pub open spec fn filter_of(profile: Option<UserProfile>, hifi_filter: Seq<char>) -> Option<
    Seq<char>,
> {
    match profile {
        Some(p) => if p.default_eq_mode@ == "hifi"@ {
            Some(hifi_filter)
        } else {
            None
        },
        None => None,
    }
}

/// The ffmpeg `-af` filtergraph of a user's saved `/profile eq` mode --
/// `None` for Balanced, `Some(hifi_filter)` for Hi-Fi.
pub fn resolve_eq_filter(profile: Option<&UserProfile>, hifi_filter: &str) -> (filter: Option<
    String,
>)
    ensures
        text::opt_text(filter) == filter_of(
            match profile {
                Some(p) => Some(*p),
                None => None,
            },
            hifi_filter@,
        ),
{
    match profile {
        Some(p) => if same_text(p.default_eq_mode.as_str(), "hifi") {
            Some(hifi_filter.to_owned())
        } else {
            None
        },
        None => None,
    }
}

/// The voice channel the invoking user is currently connected to.
pub fn user_voice_channel(in_guild: bool, voice_channel: Option<u64>) -> (channel: Result<
    u64,
    String,
>)
    ensures
        match channel {
            Ok(id) => in_guild && voice_channel == Some(id),
            Err(e) => if in_guild {
                voice_channel is None && e@ == "You must be in a voice channel first."@
            } else {
                e@ == "This command can only be used in a server."@
            },
        },
{
    if !in_guild {
        return Err("This command can only be used in a server.".to_owned());
    }
    match voice_channel {
        Some(id) => Ok(id),
        None => Err("You must be in a voice channel first.".to_owned()),
    }
}

/// A bit rate as the encoder takes it, in two's complement.
pub open spec fn encoder_rate(bps: u32) -> int {
    if bps <= i32::MAX {
        bps as int
    } else {
        bps - 0x1_0000_0000
    }
}

/// A voice channel's own configured bitrate cap: the cached one, or else the
/// one that was fetched. `None` stands for the encoder's own default. Used
/// so the encoder never exceeds what this specific channel actually allows.
pub fn resolve_target_bitrate(cached: Option<u32>, fetched: Option<u32>) -> (rate: Option<i32>)
    ensures
        match (cached, fetched) {
            (Some(bps), _) => rate matches Some(r) && r == encoder_rate(bps),
            (None, Some(bps)) => rate matches Some(r) && r == encoder_rate(bps),
            (None, None) => rate is None,
        },
{
    let bps = match cached {
        Some(bps) => Some(bps),
        None => fetched,
    };
    match bps {
        Some(bps) => {
            if bps <= 0x7fff_ffff {
                Some(bps as i32)
            } else {
                let wrapped: i64 = bps as i64 - 0x1_0000_0000;
                Some(wrapped as i32)
            }
        },
        None => None,
    }
}

/// Something that listens to a playback event.
#[derive(Clone, Copy, Debug, PartialEq, Eq, Structural)]
pub enum Handler {
    /// A `PanelUpdater`, on the event of its kind.
    Panel(PanelUpdater),
    /// A `LoopHandler`, on the end of a track.
    Loop,
    /// A `PlaybackErrorNotifier`, on an error.
    Errors,
}

/// The handlers of a guild's call, in the order in which they are
/// registered and hence called.
pub open spec fn handlers() -> Seq<Handler> {
    seq![
        Handler::Panel(PanelUpdater { kind: PanelUpdaterKind::Play }),
        Handler::Loop,
        Handler::Panel(PanelUpdater { kind: PanelUpdaterKind::End }),
        Handler::Errors,
    ]
}

/// Prepares a guild's state for a call: records where the Now Playing panel
/// goes, and says which handlers have to be registered on the call, in this
/// order. They are registered once per guild.
///
/// `LoopHandler` comes before the updater for the end of a track: it must
/// finish re-queuing a looped track *before* the panel is redrawn from the
/// queue's state.
pub fn ensure_call_raw(state: &mut GuildPlayerState, post_channel_id: u64) -> (register: Vec<
    Handler,
>)
    ensures
        *final(state) == (GuildPlayerState {
            text_channel: Some(post_channel_id),
            panel_events_registered: true,
            ..*old(state)
        }),
        register@ == (if old(state).panel_events_registered {
            Seq::empty()
        } else {
            handlers()
        }),
{
    state.text_channel = Some(post_channel_id);
    let mut register: Vec<Handler> = Vec::new();
    if !state.panel_events_registered {
        register.push(Handler::Panel(PanelUpdater { kind: PanelUpdaterKind::Play }));
        register.push(Handler::Loop);
        register.push(Handler::Panel(PanelUpdater { kind: PanelUpdaterKind::End }));
        register.push(Handler::Errors);
        state.panel_events_registered = true;
        assert(register@ =~= handlers());
    }
    register
}

/// A looped track is back in the queue before the panel is redrawn at the
/// end of a track.
pub proof fn law_loop_precedes_panel_at_end(i: int, j: int)
    requires
        0 <= i < handlers().len(),
        0 <= j < handlers().len(),
        handlers()[i] == Handler::Loop,
        handlers()[j] == Handler::Panel(PanelUpdater { kind: PanelUpdaterKind::End }),
    ensures
        i < j,
{
}

/// Who asked for a track, and how they like it played.
#[derive(Debug, PartialEq, Eq)]
pub struct Requester {
    pub user_id: u64,
    pub name: String,
    pub volume_pct: i64,
    pub eq_filter: Option<String>,
}

/// A track that is ready to be queued.
#[derive(Debug, PartialEq, Eq)]
pub struct PlannedTrack {
    pub source: FfmpegEqSource,
    pub meta: TrackMeta,
    pub volume_pct: i64,
}

/// A span, if there is one.
pub open spec fn opt_span(span: Option<Duration>) -> Option<nat> {
    match span {
        Some(d) => Some(d@),
        None => None,
    }
}

impl PlannedTrack {
    /// Whether this plays the given track from its start, for `requester`.
    pub open spec fn is_for(
        self,
        title: Seq<char>,
        url: Seq<char>,
        duration: Option<nat>,
        thumbnail: Option<Seq<char>>,
        uploader: Option<Seq<char>>,
        requester: Requester,
        extra_args: Seq<String>,
    ) -> bool {
        &&& self.source.plays(self.meta, extra_args, None)
        &&& self.volume_pct == requester.volume_pct
        &&& self.meta.title@ == title
        &&& self.meta.url@ == url
        &&& opt_span(self.meta.duration) == duration
        &&& text::opt_text(self.meta.thumbnail) == thumbnail
        &&& text::opt_text(self.meta.uploader) == uploader
        &&& self.meta.requested_by == requester.user_id
        &&& self.meta.requester_name@ == requester.name@
        &&& self.meta.eq_filter == requester.eq_filter
        &&& self.meta.start_offset@ == 0
        &&& !self.meta.is_seek
        &&& !self.meta.is_loop_clone
    }

    /// Plans a track that plays from its start.
    fn plan(
        title: String,
        url: String,
        duration: Option<Duration>,
        thumbnail: Option<String>,
        uploader: Option<String>,
        requester: &Requester,
        extra_args: &Vec<String>,
    ) -> (planned: PlannedTrack)
        ensures
            planned.is_for(
                title@,
                url@,
                opt_span(duration),
                text::opt_text(thumbnail),
                text::opt_text(uploader),
                *requester,
                extra_args@,
            ),
    {
        let meta = TrackMeta {
            title,
            url,
            requested_by: requester.user_id,
            duration,
            eq_filter: requester.eq_filter.clone(),
            thumbnail,
            uploader,
            requester_name: requester.name.clone(),
            start_offset: Duration::zero(),
            is_seek: false,
            is_loop_clone: false,
        };
        PlannedTrack {
            source: FfmpegEqSource::for_track(&meta, extra_args, None),
            meta,
            volume_pct: requester.volume_pct,
        }
    }
}

/// A known length in seconds; none if it is not positive.
pub open spec fn known_length(secs: int) -> Option<nat> {
    if secs > 0 {
        Some((secs * NANOS_PER_SEC) as nat)
    } else {
        None
    }
}

/// A known length in seconds, as a span.
fn known_duration(secs: i64) -> (span: Option<Duration>)
    ensures
        opt_span(span) == known_length(secs as int),
{
    if secs > 0 {
        Some(Duration::from_secs(secs as u64))
    } else {
        None
    }
}

/// Plans a single track whose title and duration are already known.
pub fn enqueue_known_raw(
    extra_args: &Vec<String>,
    url: &str,
    title: &str,
    duration_secs: i64,
    uploader: Option<String>,
    requester: &Requester,
) -> (planned: PlannedTrack)
    ensures
        planned.is_for(
            title@,
            url@,
            known_length(duration_secs as int),
            track::thumbnail_of(url@),
            text::opt_text(uploader),
            *requester,
            extra_args@,
        ),
{
    PlannedTrack::plan(
        title.to_owned(),
        url.to_owned(),
        known_duration(duration_secs),
        derive_youtube_thumbnail(url),
        uploader,
        requester,
        extra_args,
    )
}

/// Plans many known tracks (e.g. a whole stored playlist) at once, in order.
pub fn enqueue_multiple_known(
    extra_args: &Vec<String>,
    tracks: &Vec<PlaylistTrack>,
    requester: &Requester,
) -> (planned: Vec<PlannedTrack>)
    ensures
        planned@.len() == tracks@.len(),
        forall|i: int|
            0 <= i < planned@.len() ==> (#[trigger] planned@[i]).is_for(
                tracks@[i].title@,
                tracks@[i].url@,
                known_length(tracks@[i].duration as int),
                track::thumbnail_of(tracks@[i].url@),
                text::opt_text(tracks@[i].uploader),
                *requester,
                extra_args@,
            ),
{
    let mut planned: Vec<PlannedTrack> = Vec::new();
    let mut i: usize = 0;
    while i < tracks.len()
        invariant
            i <= tracks@.len(),
            planned@.len() == i,
            forall|k: int|
                0 <= k < planned@.len() ==> (#[trigger] planned@[k]).is_for(
                    tracks@[k].title@,
                    tracks@[k].url@,
                    known_length(tracks@[k].duration as int),
                    track::thumbnail_of(tracks@[k].url@),
                    text::opt_text(tracks@[k].uploader),
                    *requester,
                    extra_args@,
                ),
        decreases tracks@.len() - i,
    {
        let stored = &tracks[i];
        planned.push(
            enqueue_known_raw(
                extra_args,
                stored.url.as_str(),
                stored.title.as_str(),
                stored.duration,
                stored.uploader.clone(),
                requester,
            ),
        );
        i += 1;
    }
    planned
}

/// What a metadata lookup reports of a track.
#[derive(Debug, PartialEq, Eq)]
pub struct AuxMetadata {
    pub title: Option<String>,
    pub duration: Option<Duration>,
    pub thumbnail: Option<String>,
    pub channel: Option<String>,
    pub artist: Option<String>,
}

/// The title that is shown for `url`: the reported one, or else the URL.
pub open spec fn title_of(url: Seq<char>, aux: Option<AuxMetadata>) -> Seq<char> {
    match aux {
        Some(a) => match a.title {
            Some(title) => title@,
            None => url,
        },
        None => url,
    }
}

/// The thumbnail that is shown for `url`: the reported one, or else the one
/// that the URL leads to.
pub open spec fn picture_of(url: Seq<char>, aux: Option<AuxMetadata>) -> Option<Seq<char>> {
    match aux {
        Some(a) => match a.thumbnail {
            Some(thumbnail) => Some(thumbnail@),
            None => track::thumbnail_of(url),
        },
        None => track::thumbnail_of(url),
    }
}

/// The uploader that is shown: the reported channel, or else the artist.
pub open spec fn uploader_of(aux: Option<AuxMetadata>) -> Option<Seq<char>> {
    match aux {
        Some(a) => match a.channel {
            Some(channel) => Some(channel@),
            None => text::opt_text(a.artist),
        },
        None => None,
    }
}

/// Plans the track at `url`, with as much as a metadata lookup reports of
/// it.
pub fn resolve_and_build_track(
    url: &str,
    aux: Option<&AuxMetadata>,
    requester: &Requester,
    extra_args: &Vec<String>,
) -> (planned: PlannedTrack)
    ensures
        ({
            let reported = match aux {
                Some(a) => Some(*a),
                None => None,
            };
            planned.is_for(
                title_of(url@, reported),
                url@,
                match reported {
                    Some(a) => opt_span(a.duration),
                    None => None,
                },
                picture_of(url@, reported),
                uploader_of(reported),
                *requester,
                extra_args@,
            )
        }),
{
    let (title, duration, thumbnail, uploader): (
        String,
        Option<Duration>,
        Option<String>,
        Option<String>,
    ) = match aux {
        Some(a) => (
            match &a.title {
                Some(title) => title.clone(),
                None => url.to_owned(),
            },
            a.duration,
            match &a.thumbnail {
                Some(thumbnail) => Some(thumbnail.clone()),
                None => derive_youtube_thumbnail(url),
            },
            match &a.channel {
                Some(channel) => Some(channel.clone()),
                None => a.artist.clone(),
            },
        ),
        None => (url.to_owned(), None, derive_youtube_thumbnail(url), None),
    };
    PlannedTrack::plan(title, url.to_owned(), duration, thumbnail, uploader, requester, extra_args)
}

/// Joins your current voice channel.
pub fn join(channel_id: u64) -> (answer: String)
    ensures
        answer@ == "🔊 Connected to <#"@ + text::nat_text(channel_id as nat) + ">."@,
{
    let mut answer = "🔊 Connected to <#".to_owned();
    answer.append(nat_string(channel_id).as_str());
    answer.append(">.");
    answer
}

/// Leaves the voice channel and clears the queue.
pub fn leave(had_anything: bool) -> (answer: &'static str)
    ensures
        answer@ == (if had_anything {
            "👋 Disconnected from the voice channel."@
        } else {
            "The bot is not in a voice channel."@
        }),
{
    if had_anything {
        "👋 Disconnected from the voice channel."
    } else {
        "The bot is not in a voice channel."
    }
}

/// Whether a text is a direct URL.
pub open spec fn direct(url: Seq<char>) -> bool {
    text::has_prefix(url, "http://"@) || text::has_prefix(url, "https://"@)
}

/// Whether a text is a direct URL.
fn is_direct(url: &str) -> (yes: bool)
    ensures
        yes == direct(url@),
{
    starts_with(url, "http://") || starts_with(url, "https://")
}

/// Checks what `/play` is asked to play: why it is refused, if it is.
pub fn play(url: &str) -> (refusal: Option<&'static str>)
    ensures
        match refusal {
            Some(r) => !direct(url@) && r@
                == "❌ `/play` currently only accepts a direct URL. Keyword search is coming in a later phase."@,
            None => direct(url@),
        },
{
    if is_direct(url) {
        None
    } else {
        Some(
            "❌ `/play` currently only accepts a direct URL. Keyword search is coming in a later phase.",
        )
    }
}

/// Confirms a track that was added to the queue.
pub fn added_message(title: &str) -> (answer: String)
    ensures
        answer@ == "✅ Added **"@ + title@ + "** to the queue."@,
{
    let mut answer = "✅ Added **".to_owned();
    answer.append(title);
    answer.append("** to the queue.");
    answer
}

/// Checks what `/playnext` is asked to play: why it is refused, if it is.
pub fn playnext(url: &str) -> (refusal: Option<&'static str>)
    ensures
        match refusal {
            Some(r) => !direct(url@) && r@ == "❌ `/playnext` currently only accepts a direct URL."@,
            None => direct(url@),
        },
{
    if is_direct(url) {
        None
    } else {
        Some("❌ `/playnext` currently only accepts a direct URL.")
    }
}

/// Confirms a track that plays next.
pub fn next_message(title: &str) -> (answer: String)
    ensures
        answer@ == "⏭️ **"@ + title@ + "** will play next."@,
{
    let mut answer = "⏭️ **".to_owned();
    answer.append(title);
    answer.append("** will play next.");
    answer
}

/// Answers `/shuffle`: how many tracks were upcoming, if there is a call.
pub fn shuffle(upcoming: Option<usize>) -> (answer: String)
    ensures
        answer@ == (match upcoming {
            None => "The queue is empty."@,
            Some(n) => if n == 0 {
                "There's nothing queued up next to shuffle."@
            } else {
                "🔀 Shuffled "@ + text::nat_text(n as nat) + " upcoming track(s)."@
            },
        }),
{
    match upcoming {
        None => "The queue is empty.".to_owned(),
        Some(n) => {
            if n == 0 {
                return "There's nothing queued up next to shuffle.".to_owned();
            }
            let mut answer = "🔀 Shuffled ".to_owned();
            answer.append(nat_string(n as u64).as_str());
            answer.append(" upcoming track(s).");
            answer
        },
    }
}

/// Answers `/clear`: how many tracks were removed, if there is a call.
pub fn clear(removed: Option<usize>) -> (answer: String)
    ensures
        answer@ == (match removed {
            None => "The queue is empty."@,
            Some(n) => if n == 0 {
                "The queue is already empty."@
            } else {
                "🗑️ Cleared "@ + text::nat_text(n as nat)
                    + " track(s) from the queue. The current track keeps playing."@
            },
        }),
{
    match removed {
        None => "The queue is empty.".to_owned(),
        Some(n) => {
            if n == 0 {
                return "The queue is already empty.".to_owned();
            }
            let mut answer = "🗑️ Cleared ".to_owned();
            answer.append(nat_string(n as u64).as_str());
            answer.append(" track(s) from the queue. The current track keeps playing.");
            answer
        },
    }
}

/// Answers `/seek`: where it led, or why it led nowhere, if there is a call.
pub fn seek(outcome: Option<&Result<Duration, String>>) -> (answer: String)
    ensures
        answer@ == (match outcome {
            None => "Nothing is playing."@,
            Some(Ok(target)) => "⏩ Seeked to "@ + ui::clock_text(target@) + "."@,
            Some(Err(e)) => "⚠️ "@ + e@,
        }),
{
    match outcome {
        None => "Nothing is playing.".to_owned(),
        Some(Ok(target)) => {
            let mut answer = "⏩ Seeked to ".to_owned();
            answer.append(format_duration(*target).as_str());
            answer.append(".");
            answer
        },
        Some(Err(e)) => {
            let mut answer = "⚠️ ".to_owned();
            answer.append(e.as_str());
            answer
        },
    }
}

/// Prepares `/stop`: resets the loop mode, so that no track is re-queued as
/// it stops, and names the task to abort for the progress ticker to stop.
pub fn stop(state: &mut GuildPlayerState, current: Option<u64>) -> (abort: Option<u64>)
    ensures
        *final(state) == (GuildPlayerState {
            loop_mode: LoopMode::Off,
            progress_ticker: None,
            ..*old(state)
        }),
        abort == state::abort_of(old(state).progress_ticker, current),
{
    state.loop_mode = LoopMode::Off;
    stop_progress_ticker(state, current)
}

/// Answers `/stop`.
pub fn stop_message(had_call: bool) -> (answer: &'static str)
    ensures
        answer@ == (if had_call {
            "⏹️ Stopped playback and cleared the queue."@
        } else {
            "There is nothing to stop."@
        }),
{
    if had_call {
        "⏹️ Stopped playback and cleared the queue."
    } else {
        "There is nothing to stop."
    }
}

/// Answers `/skip`: the title of what was skipped, if anything was.
pub fn skip(skipped_title: Option<&str>) -> (answer: String)
    ensures
        answer@ == (match skipped_title {
            Some(title) => "⏭️ Skipped **"@ + title@ + "**."@,
            None => "There is nothing to skip."@,
        }),
{
    match skipped_title {
        Some(title) => {
            let mut answer = "⏭️ Skipped **".to_owned();
            answer.append(title);
            answer.append("**.");
            answer
        },
        None => "There is nothing to skip.".to_owned(),
    }
}

/// Loop mode choice of `/loop`.
#[derive(Clone, Copy, Debug, PartialEq, Eq, Structural)]
pub enum LoopModeChoice {
    Off,
    Track,
    Queue,
}

impl LoopModeChoice {
    /// The loop mode that a choice stands for.
    pub open spec fn mode(self) -> LoopMode {
        match self {
            LoopModeChoice::Off => LoopMode::Off,
            LoopModeChoice::Track => LoopMode::Track,
            LoopModeChoice::Queue => LoopMode::Queue,
        }
    }
}

impl From<LoopModeChoice> for LoopMode {
    fn from(choice: LoopModeChoice) -> (mode: Self) {
        match choice {
            LoopModeChoice::Off => LoopMode::Off,
            LoopModeChoice::Track => LoopMode::Track,
            LoopModeChoice::Queue => LoopMode::Queue,
        }
    }
}

impl vstd::std_specs::convert::FromSpecImpl<LoopModeChoice> for LoopMode {
    open spec fn obeys_from_spec() -> bool {
        true
    }

    open spec fn from_spec(choice: LoopModeChoice) -> LoopMode {
        choice.mode()
    }
}

/// Sets the loop mode for playback, and says what that means for the loop
/// clone of the current track. `None` if playback has not been started yet.
pub fn loop_cmd(choice: LoopModeChoice, state: Option<&mut GuildPlayerState>) -> (step: Option<
    (LoopMode, CloneStep),
>)
    ensures
        match step {
            Some((mode, clone)) => state is Some && mode == choice.mode() && clone
                == panel::clone_step(mode),
            None => state is None,
        },
        state matches Some(s) ==> *final(s) == (GuildPlayerState {
            loop_mode: choice.mode(),
            ..*s
        }),
{
    match state {
        Some(state) => {
            let mode = LoopMode::from(choice);
            state.loop_mode = mode;
            Some((mode, clone_step_for(mode)))
        },
        None => None,
    }
}

/// Answers `/loop`: the mode that was set, if playback has been started.
pub fn loop_message(mode: Option<LoopMode>) -> (answer: String)
    ensures
        answer@ == (match mode {
            Some(m) => "✅ Loop mode set to **"@ + m.caption() + "**."@,
            None => "Please start playback before setting a loop mode."@,
        }),
{
    match mode {
        Some(m) => {
            let mut answer = "✅ Loop mode set to **".to_owned();
            answer.append(m.label());
            answer.append("**.");
            answer
        },
        None => "Please start playback before setting a loop mode.".to_owned(),
    }
}

/// The length of the first `n` tracks together, as far as it is known.
pub open spec fn length_of(queue: Seq<Arc<TrackMeta>>, n: int) -> nat
    decreases n,
{
    if n <= 0 || n > queue.len() {
        0
    } else {
        length_of(queue, n - 1) + ui::total_length(*queue[n - 1])
    }
}

proof fn lemma_length_grows(queue: Seq<Arc<TrackMeta>>, i: int, n: int)
    requires
        0 <= i <= n <= queue.len(),
    ensures
        length_of(queue, i) <= length_of(queue, n),
    decreases n - i,
{
    if i < n {
        lemma_length_grows(queue, i, n - 1);
    }
}

/// The line for the track at index `i` of the queue. The first one is what
/// is playing; a loop clone is marked as such.
pub open spec fn queue_line(meta: TrackMeta, i: nat) -> Seq<char> {
    if i == 0 {
        if meta.is_loop_clone {
            "**Now Playing:**\n🔁 ["@ + meta.title@ + "]("@ + meta.url@
                + ") *(Loop)*\n\n**Up Next:**"@
        } else {
            "**Now Playing:**\n["@ + meta.title@ + "]("@ + meta.url@ + ")\n\n**Up Next:**"@
        }
    } else if meta.is_loop_clone {
        "`"@ + text::nat_text(i) + ".` 🔁 ["@ + meta.title@ + "]("@ + meta.url@ + ") *(Loop)*"@
    } else {
        "`"@ + text::nat_text(i) + ".` ["@ + meta.title@ + "]("@ + meta.url@ + ")"@
    }
}

/// A line for every track in the queue, and a note if nothing is upcoming.
pub open spec fn queue_lines(queue: Seq<Arc<TrackMeta>>) -> Seq<Seq<char>> {
    let lines = Seq::new(queue.len(), |i: int| queue_line(*queue[i], i as nat));
    if queue.len() == 1 {
        lines.push("*Nothing queued up next.*"@)
    } else {
        lines
    }
}

/// A span as hours, minutes and seconds.
pub open spec fn long_clock_text(span: nat) -> Seq<char> {
    let secs = span / NANOS_PER_SEC as nat;
    text::two_digits(secs / 3600) + ":"@ + text::two_digits(secs % 3600 / 60) + ":"@
        + text::two_digits(secs % 60)
}

/// The listing of a queue.
pub open spec fn queue_listing(queue: Seq<Arc<TrackMeta>>) -> ListingView {
    ListingView {
        title: "🎵 Music Queue"@,
        color: Colour::Blue,
        lines: queue_lines(queue),
        footer: text::nat_text(queue.len()) + " song(s) in queue  •  Total duration: "@
            + long_clock_text(length_of(queue, queue.len() as int)),
        ephemeral: false,
    }
}

fn line_for(meta: &TrackMeta, i: usize) -> (line: String)
    ensures
        line@ == queue_line(*meta, i as nat),
{
    let mut line = if i == 0 {
        if meta.is_loop_clone {
            "**Now Playing:**\n🔁 [".to_owned()
        } else {
            "**Now Playing:**\n[".to_owned()
        }
    } else {
        let mut numbered = "`".to_owned();
        numbered.append(nat_string(i as u64).as_str());
        if meta.is_loop_clone {
            numbered.append(".` 🔁 [");
        } else {
            numbered.append(".` [");
        }
        numbered
    };
    line.append(meta.title.as_str());
    line.append("](");
    line.append(meta.url.as_str());
    if i == 0 {
        if meta.is_loop_clone {
            line.append(") *(Loop)*\n\n**Up Next:**");
        } else {
            line.append(")\n\n**Up Next:**");
        }
    } else if meta.is_loop_clone {
        line.append(") *(Loop)*");
    } else {
        line.append(")");
    }
    line
}

/// Lists the queue, one line per track; `None` if it is empty. The tracks'
/// lengths together have to be within range.
pub fn queue(tracks: &Vec<Arc<TrackMeta>>) -> (listing: Option<Listing>)
    requires
        length_of(tracks@, tracks@.len() as int) <= MAX_NANOS,
    ensures
        match listing {
            Some(l) => tracks@.len() > 0 && l@ == queue_listing(tracks@),
            None => tracks@.len() == 0,
        },
{
    if tracks.len() == 0 {
        return None;
    }
    let mut lines: Vec<String> = Vec::new();
    let mut total = Duration::zero();
    let ghost expected = Seq::new(tracks@.len(), |i: int| queue_line(*tracks@[i], i as nat));
    let mut i: usize = 0;
    assert(text::texts(lines@) =~= expected.take(0));
    while i < tracks.len()
        invariant
            i <= tracks@.len(),
            length_of(tracks@, tracks@.len() as int) <= MAX_NANOS,
            total@ == length_of(tracks@, i as int),
            expected == Seq::new(tracks@.len(), |i: int| queue_line(*tracks@[i], i as nat)),
            text::texts(lines@) == expected.take(i as int),
        decreases tracks@.len() - i,
    {
        proof {
            lemma_length_grows(tracks@, i + 1, tracks@.len() as int);
        }
        let meta: &TrackMeta = &tracks[i];
        if let Some(d) = meta.duration {
            total = total.plus(d);
        }
        push_text(&mut lines, line_for(meta, i).as_str());
        i += 1;
        assert(text::texts(lines@) =~= expected.take(i as int));
    }
    assert(expected.take(i as int) =~= expected);
    if tracks.len() == 1 {
        push_text(&mut lines, "*Nothing queued up next.*");
    }
    let secs: u64 = total.as_secs();
    let mut footer = nat_string(tracks.len() as u64);
    footer.append(" song(s) in queue  •  Total duration: ");
    footer.append(long_clock(secs).as_str());
    Some(
        Listing {
            title: "🎵 Music Queue".to_owned(),
            color: Colour::Blue,
            lines,
            footer,
            ephemeral: false,
        },
    )
}

/// Renders a number of seconds as hours, minutes and seconds.
fn long_clock(secs: u64) -> (clock: String)
    ensures
        clock@ == text::two_digits(secs as nat / 3600) + ":"@ + text::two_digits(
            secs as nat % 3600 / 60,
        ) + ":"@ + text::two_digits(secs as nat % 60),
{
    let mut clock = padded_string(secs / 3600);
    clock.append(":");
    clock.append(padded_string(secs % 3600 / 60).as_str());
    clock.append(":");
    clock.append(padded_string(secs % 60).as_str());
    clock
}

/// Answers `/queue` when there is nothing to list.
pub fn empty_queue_message() -> (answer: &'static str)
    ensures
        answer@ == "The queue is empty."@,
{
    "The queue is empty."
}

/// Prepares reposting the Now Playing panel at the bottom of the channel:
/// forgets the old panel message, so that a fresh one is sent to the channel
/// the command was run in, and names the message to delete, with its
/// channel.
pub fn nowplaying(state: &mut GuildPlayerState, channel_id: u64) -> (delete: Option<(u64, u64)>)
    ensures
        *final(state) == (GuildPlayerState {
            now_playing_message: None,
            text_channel: Some(channel_id),
            ..*old(state)
        }),
        delete == (match (old(state).now_playing_message, old(state).text_channel) {
            (Some(message), Some(channel)) => Some((message, channel)),
            _ => None,
        }),
        panel::target_of(*final(state)) == Some(
            panel::PanelTarget { channel_id, message_id: None, loop_mode: old(state).loop_mode },
        ),
{
    let delete = match (state.now_playing_message, state.text_channel) {
        (Some(message), Some(channel)) => Some((message, channel)),
        _ => None,
    };
    state.now_playing_message = None;
    state.text_channel = Some(channel_id);
    delete
}

/// Answers `/nowplaying`.
pub fn nowplaying_reply(is_playing: bool) -> (reply: Reply)
    ensures
        reply.ephemeral,
        reply.content@ == (if is_playing {
            "✅ Panel moved to the bottom."@
        } else {
            "There is no music currently playing."@
        }),
{
    let content = if is_playing {
        "✅ Panel moved to the bottom.".to_owned()
    } else {
        "There is no music currently playing.".to_owned()
    };
    Reply { content, ephemeral: true }
}

/// A volume stays between nothing and twice the normal volume, and is left
/// alone in between.
pub proof fn law_volume_stays_in_range(percent: int)
    ensures
        0 <= volume_within(percent) <= 200,
        0 <= percent <= 200 ==> volume_within(percent) == percent,
        percent < 0 ==> volume_within(percent) == 0,
        percent > 200 ==> volume_within(percent) == 200,
{
}

/// A saved profile's volume and mode are what is played with; without one it
/// is the normal volume and no Hi-Fi.
pub proof fn law_profile_is_played_with(profile: UserProfile, hifi_filter: Seq<char>)
    ensures
        0 <= profile.default_volume <= 200 ==> volume_of(Some(profile)) == profile.default_volume,
        profile.default_volume < 0 ==> volume_of(Some(profile)) == 0,
        profile.default_volume > 200 ==> volume_of(Some(profile)) == 200,
        volume_of(None) == 100,
        profile.default_eq_mode@ == "hifi"@ ==> filter_of(Some(profile), hifi_filter) == Some(
            hifi_filter,
        ),
        profile.default_eq_mode@ != "hifi"@ ==> filter_of(Some(profile), hifi_filter) is None,
        filter_of(None, hifi_filter) is None,
{
}

/// The encoder gets the channel's bit rate as it is, in 32 bits.
pub proof fn law_encoder_gets_the_bit_rate(bps: u32)
    ensures
        bps < 0x8000_0000 ==> encoder_rate(bps) == bps,
        bps >= 0x8000_0000 ==> encoder_rate(bps) + 0x1_0000_0000 == bps,
{
}

/// A call has exactly four handlers, each once: one for a track's start, two
/// for its end, and one for errors.
pub proof fn law_call_has_its_handlers()
    ensures
        handlers().len() == 4,
        handlers()[0] == Handler::Panel(PanelUpdater { kind: PanelUpdaterKind::Play }),
        handlers()[1] == Handler::Loop,
        handlers()[2] == Handler::Panel(PanelUpdater { kind: PanelUpdaterKind::End }),
        handlers()[3] == Handler::Errors,
{
}

/// A planned track is the one that was asked for: its own title, address,
/// length, picture and uploader, for the one who asked for it and the way
/// they like it, from its start and as a genuine queue entry.
pub proof fn law_planned_track_is_the_one_asked_for(
    planned: PlannedTrack,
    title: Seq<char>,
    url: Seq<char>,
    duration: Option<nat>,
    thumbnail: Option<Seq<char>>,
    uploader: Option<Seq<char>>,
    requester: Requester,
    extra_args: Seq<String>,
)
    requires
        planned.is_for(title, url, duration, thumbnail, uploader, requester, extra_args),
    ensures
        planned.meta.title@ == title,
        planned.meta.url@ == url,
        planned.source.url@ == url,
        planned.source.ytdlp_extra_args@ == extra_args,
        planned.source.eq_filter == requester.eq_filter,
        planned.source.seek_time is None,
        planned.volume_pct == requester.volume_pct,
        planned.meta.eq_filter == requester.eq_filter,
        planned.meta.requested_by == requester.user_id,
        planned.meta.requester_name@ == requester.name@,
        planned.meta.duration is Some == duration is Some,
        planned.meta.duration matches Some(d) ==> duration == Some(d@),
        planned.meta.thumbnail is Some == thumbnail is Some,
        planned.meta.thumbnail matches Some(t) ==> thumbnail == Some(t@),
        planned.meta.uploader is Some == uploader is Some,
        planned.meta.uploader matches Some(u) ==> uploader == Some(u@),
        planned.meta.start_offset@ == 0,
        !planned.meta.is_seek,
        !planned.meta.is_loop_clone,
{
}

/// A stored length counts if it is positive, in whole seconds.
pub proof fn law_stored_lengths_are_seconds(secs: int)
    ensures
        secs > 0 ==> known_length(secs) == Some((secs * 1_000_000_000) as nat),
        secs <= 0 ==> known_length(secs) is None,
{
}

/// What a lookup reports is shown; what it does not report is made up for by
/// the address.
pub proof fn law_reported_metadata_is_shown(url: Seq<char>, aux: AuxMetadata)
    ensures
        aux.title matches Some(t) ==> title_of(url, Some(aux)) == t@,
        aux.title is None ==> title_of(url, Some(aux)) == url,
        title_of(url, None) == url,
        aux.thumbnail matches Some(t) ==> picture_of(url, Some(aux)) == Some(t@),
        aux.thumbnail is None ==> picture_of(url, Some(aux)) == track::thumbnail_of(url),
        picture_of(url, None) == track::thumbnail_of(url),
        aux.channel matches Some(c) ==> uploader_of(Some(aux)) == Some(c@),
        aux.channel is None ==> (aux.artist matches Some(a) ==> uploader_of(Some(aux)) == Some(a@)),
        aux.channel is None && aux.artist is None ==> uploader_of(Some(aux)) is None,
        uploader_of(None) is None,
{
}

/// A direct address begins with the name of a web protocol.
pub proof fn law_direct_addresses(rest: Seq<char>)
    ensures
        direct("http://"@ + rest),
        direct("https://"@ + rest),
        direct(rest) ==> text::has_prefix(rest, "http://"@) || text::has_prefix(rest, "https://"@),
{
    text::law_texts_are_found(Seq::empty(), "http://"@, rest);
    text::law_texts_are_found(Seq::empty(), "https://"@, rest);
}

/// Each choice stands for the mode of its name.
pub proof fn law_loop_choices()
    ensures
        LoopModeChoice::Off.mode() == LoopMode::Off,
        LoopModeChoice::Track.mode() == LoopMode::Track,
        LoopModeChoice::Queue.mode() == LoopMode::Queue,
{
}

/// The length of a queue is the sum of its tracks' lengths, where they are
/// known.
pub proof fn law_queue_length_adds_up(queue: Seq<Arc<TrackMeta>>, n: int)
    requires
        0 <= n < queue.len(),
    ensures
        length_of(queue, 0) == 0,
        queue[n].duration matches Some(d) ==> length_of(queue, n + 1) == length_of(queue, n) + d@,
        queue[n].duration is None ==> length_of(queue, n + 1) == length_of(queue, n),
{
}

/// The queue is listed with a line for every track, in order: what is
/// playing first, then what is upcoming by its number; loop clones are
/// marked. The footer counts the tracks and adds their lengths up.
pub proof fn law_queue_is_listed(queue: Seq<Arc<TrackMeta>>, i: int)
    requires
        0 <= i < queue.len(),
    ensures
        ({
            let listing = queue_listing(queue);
            let meta = *queue[i];
            let link = meta.title@ + "]("@ + meta.url@;
            &&& listing.title == "🎵 Music Queue"@
            &&& listing.color == Colour::Blue
            &&& !listing.ephemeral
            &&& listing.lines.len() == (if queue.len() == 1 {
                2int
            } else {
                queue.len() as int
            })
            &&& queue.len() == 1 ==> listing.lines[1] == "*Nothing queued up next.*"@
            &&& i == 0 && !meta.is_loop_clone ==> listing.lines[i] == "**Now Playing:**\n["@ + link
                + ")\n\n**Up Next:**"@
            &&& i == 0 && meta.is_loop_clone ==> listing.lines[i] == "**Now Playing:**\n🔁 ["@
                + link + ") *(Loop)*\n\n**Up Next:**"@
            &&& i > 0 && !meta.is_loop_clone ==> listing.lines[i] == "`"@ + text::nat_text(i as nat)
                + ".` ["@ + link + ")"@
            &&& i > 0 && meta.is_loop_clone ==> listing.lines[i] == "`"@ + text::nat_text(i as nat)
                + ".` 🔁 ["@ + link + ") *(Loop)*"@
            &&& listing.footer == text::nat_text(queue.len())
                + " song(s) in queue  •  Total duration: "@ + long_clock_text(
                length_of(queue, queue.len() as int),
            )
        }),
{
    let meta = queue[i];
    let link = meta.title@ + "]("@ + meta.url@;
    let heads = seq![
        "**Now Playing:**\n["@,
        "**Now Playing:**\n🔁 ["@,
        "`"@ + text::nat_text(i as nat) + ".` ["@,
        "`"@ + text::nat_text(i as nat) + ".` 🔁 ["@,
    ];
    assert(heads[0] + meta.title@ + "]("@ + meta.url@ =~= heads[0] + link);
    assert(heads[1] + meta.title@ + "]("@ + meta.url@ =~= heads[1] + link);
    assert(heads[2] + meta.title@ + "]("@ + meta.url@ =~= heads[2] + link);
    assert(heads[3] + meta.title@ + "]("@ + meta.url@ =~= heads[3] + link);
}

/// A long clock shows hours, minutes and seconds, and reads back as the
/// whole seconds of its span.
pub proof fn law_long_clock_reads_back(span: nat)
    ensures
        ({
            let clock = long_clock_text(span);
            let n = clock.len() as int;
            &&& n >= 8
            &&& clock[n - 3] == ':'
            &&& clock[n - 6] == ':'
            &&& text::digits_value(clock.take(n - 6)) * 3600 + text::digits_value(
                clock.subrange(n - 5, n - 3),
            ) * 60 + text::digits_value(clock.skip(n - 2)) == span / 1_000_000_000
            &&& text::digits_value(clock.subrange(n - 5, n - 3)) < 60
            &&& text::digits_value(clock.skip(n - 2)) < 60
        }),
{
    let secs = span / NANOS_PER_SEC as nat;
    let clock = long_clock_text(span);
    let n = clock.len() as int;
    let h = text::two_digits(secs / 3600);
    let m = text::two_digits(secs % 3600 / 60);
    let s = text::two_digits(secs % 60);
    text::law_two_digits_read_back(secs / 3600);
    text::law_two_digits_read_back(secs % 3600 / 60);
    text::law_two_digits_read_back(secs % 60);
    reveal_strlit(":");
    assert(clock.take(n - 6) =~= h);
    assert(clock.subrange(n - 5, n - 3) =~= m);
    assert(clock.skip(n - 2) =~= s);
}

} // verus!
