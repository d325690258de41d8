//! Per-guild Now Playing panel, playback queue and auto-leave rules.
//!
//! Split into layers, each depending only on the ones above it: `state`
//! (shared per-guild state), `track` (track metadata and seeking), `queue`
//! (rearranging the playback queue), `ui` (panel rendering), `panel` (keeping
//! the panel message current, and its buttons), `lifecycle` (timers and
//! cleanup), `voice` (who is listening) and `events` (what a playback event
//! sets in motion).

pub mod custom_id;
pub mod events;
pub mod lifecycle;
pub mod panel;
pub mod queue;
pub mod state;
pub mod track;
pub mod ui;
pub mod voice;
