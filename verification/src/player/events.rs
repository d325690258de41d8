//! What a playback event sets in motion.

use vstd::prelude::*;

use crate::audio_source::FfmpegEqSource;
use crate::player::state::{LoopMode, TrackMeta};
use crate::text::same_text;

verus! {

/// Which playback event a `PanelUpdater` is registered for.
#[derive(Clone, Copy, Debug, PartialEq, Eq, Structural)]
pub enum PanelUpdaterKind {
    Play,
    End,
}

/// One thing that a `PanelUpdater` does.
#[derive(Clone, Copy, Debug, PartialEq, Eq, Structural)]
pub enum PanelStep {
    /// Rebuild the panel.
    Refresh,
    /// Start the progress ticker if it isn't already running.
    EnsureTicker,
    /// Stop the progress ticker.
    StopTicker,
    /// Start or cancel the idle-leave timer to match the queue.
    SyncIdle,
}

/// Keeps the Now Playing panel in sync with the call's queue. Registered
/// once per guild for the start of a track and once for its end.
#[derive(Clone, Copy, Debug, PartialEq, Eq, Structural)]
pub struct PanelUpdater {
    pub kind: PanelUpdaterKind,
}

impl PanelUpdater {
    /// What the event sets in motion, in order.
    pub open spec fn steps(self) -> Seq<PanelStep> {
        match self.kind {
            PanelUpdaterKind::Play => seq![
                PanelStep::Refresh,
                PanelStep::EnsureTicker,
                PanelStep::SyncIdle,
            ],
            PanelUpdaterKind::End => seq![
                PanelStep::Refresh,
                PanelStep::StopTicker,
                PanelStep::SyncIdle,
            ],
        }
    }

    /// What the event sets in motion, in order.
    pub fn act(&self) -> (steps: Vec<PanelStep>)
        ensures
            steps@ == self.steps(),
    {
        let mut steps: Vec<PanelStep> = Vec::new();
        steps.push(PanelStep::Refresh);
        match self.kind {
            PanelUpdaterKind::Play => {
                steps.push(PanelStep::EnsureTicker);
            },
            PanelUpdaterKind::End => {
                steps.push(PanelStep::StopTicker);
            },
        }
        steps.push(PanelStep::SyncIdle);
        assert(steps@ =~= self.steps());
        steps
    }
}

/// Tells the text channel when a track failed to play.
#[derive(Clone, Copy, Debug, PartialEq, Eq, Structural)]
pub struct PlaybackErrorNotifier {}

impl PlaybackErrorNotifier {
    /// What to post about the track with this title, if the guild has a text
    /// channel.
    pub fn act(&self, text_channel: Option<u64>, title: &str) -> (notice: Option<(u64, String)>)
        ensures
            match notice {
                Some(n) => text_channel == Some(n.0) && n.1@ == "❌ Playback error: Skipping **"@
                    + title@ + "**."@,
                None => text_channel is None,
            },
    {
        match text_channel {
            Some(channel) => {
                let mut notice = "❌ Playback error: Skipping **".to_owned();
                notice.append(title);
                notice.append("**.");
                Some((channel, notice))
            },
            None => None,
        }
    }
}

/// What the end of a track sets in motion.
#[derive(Debug, PartialEq, Eq)]
pub enum LoopStep {
    Nothing,
    /// A fresh copy of the track goes to the back of the queue.
    Requeue { source: FfmpegEqSource, meta: TrackMeta },
    /// The following lap's loop clone is topped up.
    TopUp,
}

/// Whether the track that is now playing stands in for `ended` after a seek.
pub open spec fn is_seek_replacement(ended: TrackMeta, current: Option<TrackMeta>) -> bool {
    current matches Some(c) && c.is_seek && c.url@ == ended.url@
}

/// Implements both `LoopMode::Queue` and `LoopMode::Track` at the end of a
/// track.
///
/// A finished track can't be replayed, and its raw PCM input can't be wound
/// back to the start, so each repeat is a fresh copy. `Queue` appends it to
/// the back. `Track` keeps a clone of the current track queued one slot
/// ahead at all times, so by the time a track actually ends the repeat is
/// already next in line, and all that is left is to top up the clone for the
/// *following* lap.
#[derive(Debug, PartialEq, Eq)]
pub struct LoopHandler {
    /// Forwarded to yt-dlp when the copy's stream is resolved.
    pub extra_args: Vec<String>,
}

impl LoopHandler {
    /// What the end of the track `ended` sets in motion, given what is now
    /// playing. A track that ended in an error is left alone, so that a
    /// permanently broken URL doesn't loop forever; and so is one that a
    /// seek has replaced, which has not really ended.
    pub fn act(
        &self,
        loop_mode: LoopMode,
        errored: bool,
        ended: &TrackMeta,
        current: Option<&TrackMeta>,
    ) -> (step: LoopStep)
        ensures
            ({
                let idle = errored || is_seek_replacement(
                    *ended,
                    match current {
                        Some(c) => Some(*c),
                        None => None,
                    },
                );
                match step {
                    LoopStep::Nothing => loop_mode == LoopMode::Off || idle,
                    LoopStep::Requeue { source, meta } => {
                        &&& loop_mode == LoopMode::Queue
                        &&& !idle
                        &&& meta.is_fresh_copy(*ended)
                        &&& source.plays(*ended, self.extra_args@, None)
                    },
                    LoopStep::TopUp => loop_mode == LoopMode::Track && !idle,
                }
            }),
    {
        if errored {
            return LoopStep::Nothing;
        }
        if let Some(playing) = current {
            if playing.is_seek && same_text(playing.url.as_str(), ended.url.as_str()) {
                return LoopStep::Nothing;
            }
        }
        match loop_mode {
            LoopMode::Off => LoopStep::Nothing,
            LoopMode::Queue => LoopStep::Requeue {
                source: FfmpegEqSource::for_track(ended, &self.extra_args, None),
                meta: ended.fresh_copy(),
            },
            LoopMode::Track => LoopStep::TopUp,
        }
    }
}

/// A seek never piles the same track up in the queue: the track that a seek
/// puts at the front is recognised as standing in for the one it replaced,
/// whatever the loop mode.
pub proof fn law_seek_is_not_an_end(
    ended: TrackMeta,
    replacement: TrackMeta,
    target: crate::time::Duration,
)
    requires
        replacement.is_seek_of(ended, target),
    ensures
        is_seek_replacement(ended, Some(replacement)),
{
}

/// Under `LoopMode::Queue` a track can go round any number of times: the
/// copy of a copy is a copy of the first.
pub proof fn law_queue_loop_repeats(first: TrackMeta, second: TrackMeta, third: TrackMeta)
    requires
        second.is_fresh_copy(first),
        third.is_fresh_copy(second),
    ensures
        third.is_fresh_copy(first),
        !is_seek_replacement(first, Some(second)),
{
}

/// At either event the panel is redrawn first and the idle timer brought in
/// line last; in between the ticker is started at a track's start and
/// stopped at its end.
pub proof fn law_panel_follows_playback(updater: PanelUpdater)
    ensures
        updater.steps().len() == 3,
        updater.steps()[0] == PanelStep::Refresh,
        updater.kind == PanelUpdaterKind::Play ==> updater.steps()[1] == PanelStep::EnsureTicker,
        updater.kind == PanelUpdaterKind::End ==> updater.steps()[1] == PanelStep::StopTicker,
        updater.steps()[2] == PanelStep::SyncIdle,
{
}

/// A track stands in for the one that ended exactly if it is a seek's
/// replacement of the same song.
pub proof fn law_replacements_are_told_by_url(ended: TrackMeta, current: TrackMeta)
    ensures
        is_seek_replacement(ended, Some(current)) <==> current.is_seek && current.url@ == ended.url@,
        !is_seek_replacement(ended, None),
{
}

} // verus!
