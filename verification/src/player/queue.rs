//! Rearranging the playback queue. Index 0 is what is playing; under
//! `LoopMode::Track` index 1 is reserved for a pre-emptive duplicate of it.
//!
//! Keeping the next repeat of the current track in the queue ahead of time
//! means that an ordinary end of track needs no special-casing: the queue's
//! own forward-only advancement plays the clone next, and the following
//! lap's clone is topped up afterwards.

use std::collections::VecDeque;
use std::sync::Arc;

use rand::seq::SliceRandom;
use vstd::prelude::*;

use crate::audio_source::FfmpegEqSource;
use crate::player::state::TrackMeta;

verus! {

/// A queued track: the audio driver's own handle, which number the driver
/// knows it under, and its metadata.
#[derive(Debug, PartialEq, Eq)]
pub struct Entry<T> {
    pub uuid: u128,
    pub meta: Arc<TrackMeta>,
    pub item: T,
}

/// Whether index 1 holds the current track's loop clone.
pub open spec fn clone_is_next<T>(queue: Seq<Entry<T>>) -> bool {
    queue.len() > 1 && queue[1].meta.is_loop_clone
}

/// The first index at or after `i` with the given number.
pub open spec fn position_from<T>(queue: Seq<Entry<T>>, uuid: u128, i: int) -> Option<int>
    decreases queue.len() - i,
{
    if i < 0 || i >= queue.len() {
        None
    } else if queue[i].uuid == uuid {
        Some(i)
    } else {
        position_from(queue, uuid, i + 1)
    }
}

/// The index of the first genuinely upcoming track.
pub open spec fn first_upcoming<T>(queue: Seq<Entry<T>>) -> int {
    if clone_is_next(queue) {
        2
    } else {
        1
    }
}

/// The queue with its last track moved up to play next: right after the
/// current track and its loop clone, if there is one.
pub open spec fn with_last_next<T>(queue: Seq<Entry<T>>) -> Seq<Entry<T>> {
    if queue.len() <= 1 {
        queue
    } else {
        let rest = queue.drop_last();
        let at = if first_upcoming(rest) <= rest.len() {
            first_upcoming(rest)
        } else {
            rest.len() as int
        };
        rest.insert(at, queue.last())
    }
}

/// The queue with the track numbered `uuid` moved to index 1.
pub open spec fn with_second<T>(queue: Seq<Entry<T>>, uuid: u128) -> Seq<Entry<T>> {
    match position_from(queue, uuid, 0) {
        Some(i) => {
            let rest = queue.remove(i);
            let at = if rest.len() == 0 {
                0int
            } else {
                1int
            };
            rest.insert(at, queue[i])
        },
        None => queue,
    }
}

/// The queue without the loop clone at index 1.
pub open spec fn without_clone<T>(queue: Seq<Entry<T>>) -> Seq<Entry<T>> {
    if clone_is_next(queue) {
        queue.remove(1)
    } else {
        queue
    }
}

/// The queue without the track numbered `uuid`.
pub open spec fn without_number<T>(queue: Seq<Entry<T>>, uuid: u128) -> Seq<Entry<T>> {
    match position_from(queue, uuid, 0) {
        Some(i) => queue.remove(i),
        None => queue,
    }
}

/// The queue with the track numbered `uuid` in the place of the one at the
/// front.
pub open spec fn with_front_replaced<T>(queue: Seq<Entry<T>>, uuid: u128) -> Seq<Entry<T>> {
    let rest = without_number(queue, uuid);
    let behind = if rest.len() == 0 {
        rest
    } else {
        rest.skip(1)
    };
    match position_from(queue, uuid, 0) {
        Some(i) => seq![queue[i]] + behind,
        None => behind,
    }
}

/// Finding a track by its number stays within the queue.
proof fn lemma_position<T>(queue: Seq<Entry<T>>, uuid: u128, i: int)
    requires
        0 <= i,
    ensures
        position_from(queue, uuid, i) matches Some(k) ==> i <= k < queue.len() && queue[k].uuid
            == uuid,
        position_from(queue, uuid, i) is None ==> forall|k: int|
            i <= k < queue.len() ==> (#[trigger] queue[k]).uuid != uuid,
    decreases queue.len() - i,
{
    if i < queue.len() && queue[i].uuid != uuid {
        lemma_position(queue, uuid, i + 1);
    }
}

/// Whether index 1 holds the current track's loop clone.
fn clone_next<T>(queue: &VecDeque<Entry<T>>) -> (yes: bool)
    ensures
        yes == clone_is_next(queue@),
{
    queue.len() > 1 && queue[1].meta.is_loop_clone
}

/// The index of the track with the given number.
fn position<T>(queue: &VecDeque<Entry<T>>, uuid: u128) -> (index: Option<usize>)
    ensures
        position_from(queue@, uuid, 0) == (match index {
            Some(i) => Some(i as int),
            None => None,
        }),
        index matches Some(i) ==> i < queue@.len(),
{
    let mut i: usize = 0;
    while i < queue.len()
        invariant
            i <= queue@.len(),
            position_from(queue@, uuid, 0) == position_from(queue@, uuid, i as int),
        decreases queue@.len() - i,
    {
        if queue[i].uuid == uuid {
            return Some(i);
        }
        i += 1;
    }
    None
}

/// Moves the track that was just added to the back up to play next, leaving
/// a loop clone of the current track in place.
pub fn enqueue_next<T>(queue: &mut VecDeque<Entry<T>>)
    ensures
        final(queue)@ == with_last_next(old(queue)@),
{
    if queue.len() <= 1 {
        return;
    }
    if let Some(added) = queue.pop_back() {
        assert(queue@ =~= old(queue)@.drop_last());
        let first: usize = if clone_next(queue) {
            2
        } else {
            1
        };
        let at: usize = if first <= queue.len() {
            first
        } else {
            queue.len()
        };
        queue.insert(at, added);
    }
}

/// A pre-emptive loop clone that is ready to be queued.
#[derive(Debug, PartialEq, Eq)]
pub struct ClonePlan {
    pub source: FfmpegEqSource,
    pub meta: TrackMeta,
}

/// Plans the pre-emptive duplicate of the currently playing track that
/// `LoopMode::Track` keeps right after it. There is nothing to do if index 1
/// already holds a loop clone, or if nothing is playing.
pub fn ensure_track_loop_clone<T>(queue: &VecDeque<Entry<T>>, extra_args: &Vec<String>) -> (plan:
    Option<ClonePlan>)
    ensures
        match plan {
            Some(p) => {
                &&& queue@.len() > 0
                &&& !clone_is_next(queue@)
                &&& p.meta.is_clone_of(*queue@[0].meta)
                &&& p.source.plays(*queue@[0].meta, extra_args@, None)
            },
            None => queue@.len() == 0 || clone_is_next(queue@),
        },
{
    if queue.len() == 0 || clone_next(queue) {
        return None;
    }
    let current: &TrackMeta = &queue[0].meta;
    Some(
        ClonePlan {
            source: FfmpegEqSource::for_track(current, extra_args, None),
            meta: current.loop_clone(),
        },
    )
}

/// Moves the clone that was just queued under `uuid` to index 1.
pub fn place_loop_clone<T>(queue: &mut VecDeque<Entry<T>>, uuid: u128)
    ensures
        final(queue)@ == with_second(old(queue)@, uuid),
{
    if let Some(i) = position(queue, uuid) {
        if let Some(clone) = queue.remove(i) {
            let at: usize = if queue.len() == 0 {
                0
            } else {
                1
            };
            queue.insert(at, clone);
        }
    }
}

/// Takes the loop clone at index 1 out of the queue, if there is one; it has
/// to be stopped. Used whenever the *real* next track needs to be back at
/// index 1: when `LoopMode::Track` is turned off, or when skipping.
pub fn remove_track_loop_clone<T>(queue: &mut VecDeque<Entry<T>>) -> (removed: Option<Entry<T>>)
    ensures
        final(queue)@ == without_clone(old(queue)@),
        removed == (if clone_is_next(old(queue)@) {
            Some(old(queue)@[1])
        } else {
            None
        }),
{
    if clone_next(queue) {
        queue.remove(1)
    } else {
        None
    }
}

/// Puts the track that was just queued under `uuid` in the place of the one
/// at the front, in one step, and hands back the old front; it has to be
/// stopped before the new one is started.
pub fn replace_front<T>(queue: &mut VecDeque<Entry<T>>, uuid: u128) -> (replaced: Option<Entry<T>>)
    ensures
        final(queue)@ == with_front_replaced(old(queue)@, uuid),
        replaced == ({
            let rest = without_number(old(queue)@, uuid);
            if rest.len() == 0 {
                None
            } else {
                Some(rest[0])
            }
        }),
{
    let fresh = match position(queue, uuid) {
        Some(i) => queue.remove(i),
        None => None,
    };
    let ghost rest = queue@;
    let replaced = queue.pop_front();
    assert(rest.len() > 0 ==> queue@ =~= rest.skip(1));
    if let Some(entry) = fresh {
        queue.push_front(entry);
    }
    replaced
}

/// Takes everything but the currently playing track out of the queue; what
/// was taken out has to be stopped.
pub fn clear_upcoming<T>(queue: &mut VecDeque<Entry<T>>) -> (removed: VecDeque<Entry<T>>)
    ensures
        old(queue)@.len() <= 1 ==> final(queue)@ == old(queue)@ && removed@.len() == 0,
        old(queue)@.len() > 1 ==> final(queue)@ == old(queue)@.take(1) && removed@ == old(
            queue,
        )@.skip(1),
{
    if queue.len() <= 1 {
        return VecDeque::new();
    }
    let removed = queue.split_off(1);
    assert(queue@ =~= old(queue)@.take(1));
    assert(removed@ =~= old(queue)@.skip(1));
    removed
}

/// `rand`'s `SliceRandom::shuffle`, with its thread-local generator, on what
/// stands from index `start` on: those tracks come out in some order, none
/// lost and none added, and the ones before stay where they are. Which order
/// that is depends on chance, so nothing more is claimed.
#[verifier::external_body]
fn shuffle_from<T>(queue: &mut VecDeque<T>, start: usize)
    requires
        start <= old(queue)@.len(),
    ensures
        final(queue)@.len() == old(queue)@.len(),
        final(queue)@.take(start as int) == old(queue)@.take(start as int),
        final(queue)@.skip(start as int).to_multiset() == old(queue)@.skip(
            start as int,
        ).to_multiset(),
{
    queue.make_contiguous()[start..].shuffle(&mut rand::thread_rng());
}

/// Randomly shuffles the genuinely upcoming tracks -- the current track, and
/// its loop clone if there is one, stay in place. Returns how many upcoming
/// tracks there are.
pub fn shuffle_upcoming<T>(queue: &mut VecDeque<Entry<T>>) -> (count: usize)
    ensures
        final(queue)@.len() == old(queue)@.len(),
        count == (if old(queue)@.len() >= first_upcoming(old(queue)@) {
            old(queue)@.len() - first_upcoming(old(queue)@)
        } else {
            0
        }),
        count <= 1 ==> final(queue)@ == old(queue)@,
        count > 1 ==> {
            let start = first_upcoming(old(queue)@);
            &&& final(queue)@.take(start) == old(queue)@.take(start)
            &&& final(queue)@.skip(start).to_multiset() == old(queue)@.skip(start).to_multiset()
        },
{
    let start: usize = if clone_next(queue) {
        2
    } else {
        1
    };
    let count: usize = queue.len().saturating_sub(start);
    if count > 1 {
        shuffle_from(queue, start);
    }
    count
}

/// Whether a queue is well formed: the driver gives each of its tracks a
/// number of its own.
pub open spec fn numbered<T>(queue: Seq<Entry<T>>) -> bool {
    forall|i: int, j: int|
        0 <= i < j < queue.len() ==> (#[trigger] queue[i]).uuid != (#[trigger] queue[j]).uuid
}

/// The queue after topping up, with `clone` as the track that is queued if
/// there is something to do: the driver adds it at the back, and it is moved
/// to index 1 from there.
pub open spec fn topped_up<T>(queue: Seq<Entry<T>>, clone: Entry<T>) -> Seq<Entry<T>> {
    if queue.len() == 0 || clone_is_next(queue) {
        queue
    } else {
        with_second(queue.push(clone), clone.uuid)
    }
}

/// A track that was added to the back is found there.
proof fn lemma_position_of_last<T>(queue: Seq<Entry<T>>, added: Entry<T>, i: int)
    requires
        numbered(queue.push(added)),
        0 <= i <= queue.len(),
    ensures
        position_from(queue.push(added), added.uuid, i) == Some(queue.len() as int),
    decreases queue.len() - i,
{
    let longer = queue.push(added);
    if i < queue.len() {
        assert(longer[i].uuid != longer[queue.len() as int].uuid);
        lemma_position_of_last(queue, added, i + 1);
    }
}

/// Topping up puts the clone right behind the current track, and everything
/// else keeps its order; nothing changes if the clone is there already, or
/// if nothing is playing.
pub proof fn law_loop_clone_lands_second<T>(queue: Seq<Entry<T>>, clone: Entry<T>)
    requires
        numbered(queue.push(clone)),
    ensures
        topped_up(queue, clone) == (if queue.len() == 0 || clone_is_next(queue) {
            queue
        } else {
            seq![queue[0], clone] + queue.skip(1)
        }),
{
    if queue.len() > 0 && !clone_is_next(queue) {
        lemma_position_of_last(queue, clone, 0);
        assert(queue.push(clone).remove(queue.len() as int) =~= queue);
        assert(queue.insert(1, clone) =~= seq![queue[0], clone] + queue.skip(1));
    }
}

/// Topping up is idempotent: done a second time in a row, whatever would be
/// queued then, it leaves the queue as the first time left it.
pub proof fn law_top_up_is_idempotent<T>(queue: Seq<Entry<T>>, clone: Entry<T>, again: Entry<T>)
    requires
        numbered(queue.push(clone)),
        clone.meta.is_loop_clone,
    ensures
        topped_up(topped_up(queue, clone), again) == topped_up(queue, clone),
{
    law_loop_clone_lands_second(queue, clone);
}

/// Removing the clone undoes topping up: it is the clone that is taken out,
/// the real next track is back at index 1, and nothing else has changed.
/// Where there is no clone at index 1, nothing is taken out.
pub proof fn law_removing_the_clone_undoes_the_top_up<T>(queue: Seq<Entry<T>>, clone: Entry<T>)
    requires
        numbered(queue.push(clone)),
        clone.meta.is_loop_clone,
        !clone_is_next(queue),
    ensures
        without_clone(topped_up(queue, clone)) == queue,
        queue.len() > 0 ==> clone_is_next(topped_up(queue, clone)) && topped_up(queue, clone)[1]
            == clone,
        without_clone(queue) == queue,
{
    law_loop_clone_lands_second(queue, clone);
    if queue.len() > 0 {
        assert((seq![queue[0], clone] + queue.skip(1)).remove(1) =~= queue);
    }
}

/// `LoopMode::Track` repeats the same song before the next queued one: when
/// the current track ends and the queue advances, its clone is at the front,
/// everything behind it is as before, and the next lap's clone is again a
/// clone of the same track.
pub proof fn law_track_loop_repeats<T>(queue: Seq<Entry<T>>, clone: Entry<T>, next_lap: TrackMeta)
    requires
        queue.len() > 0,
        !clone_is_next(queue),
        numbered(queue.push(clone)),
        clone.meta.is_clone_of(*queue[0].meta),
        next_lap.is_clone_of(*clone.meta),
    ensures
        topped_up(queue, clone).skip(1) == seq![clone] + queue.skip(1),
        clone.meta.url == queue[0].meta.url,
        clone.meta.title == queue[0].meta.title,
        next_lap.is_clone_of(*queue[0].meta),
{
    law_loop_clone_lands_second(queue, clone);
    assert((seq![queue[0], clone] + queue.skip(1)).skip(1) =~= seq![clone] + queue.skip(1));
}

/// Skipping discards a pending loop clone first, so it advances to the real
/// next track instead of replaying the current one.
pub proof fn law_skip_passes_the_loop_clone<T>(queue: Seq<Entry<T>>)
    requires
        clone_is_next(queue),
    ensures
        without_clone(queue).skip(1) == queue.skip(2),
{
    assert(queue.remove(1).skip(1) =~= queue.skip(2));
}

/// A track that is to play next lands right behind the current track, or
/// right behind that one's loop clone; the tracks ahead of it stay where
/// they are and the ones behind it keep their order.
pub proof fn law_play_next_lands_behind_the_clone<T>(queue: Seq<Entry<T>>, added: Entry<T>)
    requires
        queue.len() > 0,
    ensures
        with_last_next(queue.push(added)) == queue.insert(first_upcoming(queue), added),
        clone_is_next(queue) ==> with_last_next(queue.push(added))[2] == added && with_last_next(
            queue.push(added),
        )[1] == queue[1],
        !clone_is_next(queue) ==> with_last_next(queue.push(added))[1] == added,
        with_last_next(queue.push(added))[0] == queue[0],
{
    assert(queue.push(added).drop_last() =~= queue);
}

/// A seek swaps the front of the queue for the new track and leaves
/// everything behind it alone: there is never a second front, or none.
pub proof fn law_seek_replaces_only_the_front<T>(queue: Seq<Entry<T>>, added: Entry<T>)
    requires
        queue.len() > 0,
        numbered(queue.push(added)),
    ensures
        with_front_replaced(queue.push(added), added.uuid) == seq![added] + queue.skip(1),
        without_number(queue.push(added), added.uuid)[0] == queue[0],
{
    lemma_position_of_last(queue, added, 0);
    assert(queue.push(added).remove(queue.len() as int) =~= queue);
    assert(with_front_replaced(queue.push(added), added.uuid) =~= seq![added] + queue.skip(1));
}

/// Moving tracks about neither loses nor invents one.
pub proof fn law_moves_keep_every_track<T>(queue: Seq<Entry<T>>, uuid: u128)
    ensures
        with_last_next(queue).to_multiset() == queue.to_multiset(),
        with_second(queue, uuid).to_multiset() == queue.to_multiset(),
{
    if queue.len() > 1 {
        let rest = queue.drop_last();
        assert(rest.push(queue.last()) =~= queue);
        let at = if first_upcoming(rest) <= rest.len() {
            first_upcoming(rest)
        } else {
            rest.len() as int
        };
        vstd::seq_lib::to_multiset_insert(rest, at, queue.last());
        vstd::seq_lib::to_multiset_insert(rest, rest.len() as int, queue.last());
        assert(rest.insert(rest.len() as int, queue.last()) =~= queue);
    }
    lemma_position(queue, uuid, 0);
    if let Some(i) = position_from(queue, uuid, 0) {
        let rest = queue.remove(i);
        assert(rest.insert(i, queue[i]) =~= queue);
        vstd::seq_lib::to_multiset_insert(rest, i, queue[i]);
        let at = if rest.len() == 0 {
            0int
        } else {
            1int
        };
        vstd::seq_lib::to_multiset_insert(rest, at, queue[i]);
    }
}

/// However tracks are moved about, each keeps a number of its own.
pub proof fn law_rearranging_keeps_numbers<T>(queue: Seq<Entry<T>>, rearranged: Seq<Entry<T>>)
    requires
        numbered(queue),
        rearranged.to_multiset() == queue.to_multiset(),
    ensures
        numbered(rearranged),
{
    assert(queue.no_duplicates());
    queue.lemma_multiset_has_no_duplicates();
    rearranged.lemma_multiset_has_no_duplicates_conv();
    assert forall|i: int, j: int| 0 <= i < j < rearranged.len() implies (
    #[trigger] rearranged[i]).uuid != (#[trigger] rearranged[j]).uuid by {
        vstd::seq_lib::to_multiset_contains(rearranged, rearranged[i]);
        vstd::seq_lib::to_multiset_contains(rearranged, rearranged[j]);
        vstd::seq_lib::to_multiset_contains(queue, rearranged[i]);
        vstd::seq_lib::to_multiset_contains(queue, rearranged[j]);
        let a = choose|a: int| 0 <= a < queue.len() && queue[a] == rearranged[i];
        let b = choose|b: int| 0 <= b < queue.len() && queue[b] == rearranged[j];
        assert(a != b);
    }
}

/// Every change of the queue keeps it well formed: playing a track next,
/// moving one to index 1, swapping one in for the front, dropping the clone,
/// advancing and clearing.
pub proof fn law_changes_keep_numbers<T>(queue: Seq<Entry<T>>, uuid: u128)
    requires
        numbered(queue),
    ensures
        numbered(with_last_next(queue)),
        numbered(with_second(queue, uuid)),
        numbered(with_front_replaced(queue, uuid)),
        numbered(without_clone(queue)),
        queue.len() > 0 ==> numbered(queue.skip(1)) && numbered(queue.take(1)),
{
    law_moves_keep_every_track(queue, uuid);
    law_rearranging_keeps_numbers(queue, with_last_next(queue));
    law_rearranging_keeps_numbers(queue, with_second(queue, uuid));
    lemma_position(queue, uuid, 0);
}

/// Whether loop clones stand only where they may: none beyond index 1, and
/// the one at index 1 repeats what is playing.
pub open spec fn well_placed<T>(queue: Seq<Entry<T>>) -> bool {
    &&& forall|i: int| 2 <= i < queue.len() ==> !(#[trigger] queue[i]).meta.is_loop_clone
    &&& clone_is_next(queue) ==> queue[1].meta.is_clone_of(*queue[0].meta)
}

/// Adding a genuine track, at the back or to play next, keeps loop clones in
/// their place.
pub proof fn law_adding_keeps_clones_in_place<T>(queue: Seq<Entry<T>>, added: Entry<T>)
    requires
        well_placed(queue),
        !added.meta.is_loop_clone,
    ensures
        well_placed(queue.push(added)),
        well_placed(with_last_next(queue.push(added))),
{
    if queue.len() > 0 {
        law_play_next_lands_behind_the_clone(queue, added);
    }
}

/// Topping up keeps loop clones in their place.
pub proof fn law_looping_keeps_clones_in_place<T>(queue: Seq<Entry<T>>, clone: Entry<T>)
    requires
        well_placed(queue),
        numbered(queue.push(clone)),
        queue.len() > 0 ==> clone.meta.is_clone_of(*queue[0].meta),
    ensures
        well_placed(topped_up(queue, clone)),
{
    law_loop_clone_lands_second(queue, clone);
}

/// Ending, skipping or clearing keeps loop clones in their place.
pub proof fn law_advancing_keeps_clones_in_place<T>(queue: Seq<Entry<T>>)
    requires
        well_placed(queue),
        queue.len() > 0,
    ensures
        well_placed(queue.skip(1)),
        well_placed(without_clone(queue)),
        well_placed(queue.take(1)),
{
}

/// A seek keeps loop clones in their place: the one behind the replacement
/// repeats the replacement's track just as well.
pub proof fn law_seeking_keeps_clones_in_place<T>(
    queue: Seq<Entry<T>>,
    added: Entry<T>,
    target: crate::time::Duration,
)
    requires
        well_placed(queue),
        queue.len() > 0,
        numbered(queue.push(added)),
        added.meta.is_seek_of(*queue[0].meta, target),
    ensures
        well_placed(with_front_replaced(queue.push(added), added.uuid)),
{
    law_seek_replaces_only_the_front(queue, added);
}

/// However the upcoming tracks are shuffled, loop clones stay in their
/// place.
pub proof fn law_shuffling_keeps_clones_in_place<T>(queue: Seq<Entry<T>>, shuffled: Seq<Entry<T>>)
    requires
        well_placed(queue),
        queue.len() >= first_upcoming(queue),
        shuffled.len() == queue.len(),
        shuffled.take(first_upcoming(queue)) == queue.take(first_upcoming(queue)),
        shuffled.skip(first_upcoming(queue)).to_multiset() == queue.skip(
            first_upcoming(queue),
        ).to_multiset(),
    ensures
        well_placed(shuffled),
        shuffled.to_multiset() == queue.to_multiset(),
{
    let start = first_upcoming(queue);
    let before = queue.skip(start);
    let after = shuffled.skip(start);
    assert forall|i: int| start <= i < shuffled.len() implies !(
    #[trigger] shuffled[i]).meta.is_loop_clone by {
        assert(after[i - start] == shuffled[i]);
        assert(after.contains(shuffled[i]));
        vstd::seq_lib::to_multiset_contains(after, shuffled[i]);
        vstd::seq_lib::to_multiset_contains(before, shuffled[i]);
        let k = choose|k: int| 0 <= k < before.len() && before[k] == shuffled[i];
        assert(queue[start + k] == shuffled[i]);
    }
    assert(shuffled[0] == shuffled.take(start)[0]);
    assert(queue[0] == queue.take(start)[0]);
    if start == 2 {
        assert(shuffled[1] == shuffled.take(start)[1]);
        assert(queue[1] == queue.take(start)[1]);
    }
    assert(shuffled =~= shuffled.take(start) + after);
    assert(queue =~= queue.take(start) + before);
    vstd::seq_lib::lemma_multiset_commutative(shuffled.take(start), after);
    vstd::seq_lib::lemma_multiset_commutative(queue.take(start), before);
}

/// A loop clone is next exactly if the second entry is marked as one, and
/// what is upcoming begins behind it.
pub proof fn law_upcoming_begins_behind_the_clone<T>(queue: Seq<Entry<T>>)
    ensures
        queue.len() < 2 ==> !clone_is_next(queue) && first_upcoming(queue) == 1,
        queue.len() >= 2 ==> (clone_is_next(queue) <==> queue[1].meta.is_loop_clone),
        clone_is_next(queue) ==> first_upcoming(queue) == 2,
        !clone_is_next(queue) ==> first_upcoming(queue) == 1,
        queue.len() <= 1 ==> with_last_next(queue) == queue,
{
}

/// Dropping the loop clone takes out the second entry and nothing else, and
/// only if it is one.
pub proof fn law_only_the_clone_is_dropped<T>(queue: Seq<Entry<T>>)
    ensures
        queue.len() >= 2 && queue[1].meta.is_loop_clone ==> without_clone(queue) == seq![queue[0]]
            + queue.skip(2),
        queue.len() < 2 || !queue[1].meta.is_loop_clone ==> without_clone(queue) == queue,
{
    if queue.len() >= 2 {
        assert(queue.remove(1) =~= seq![queue[0]] + queue.skip(2));
    }
}

/// A track is found by its number, at its first place in the queue; moving
/// or swapping in a track that is not there changes nothing else.
pub proof fn law_tracks_are_found_by_number<T>(queue: Seq<Entry<T>>, uuid: u128, k: int)
    ensures
        0 <= k < queue.len() && queue[k].uuid == uuid && (forall|j: int|
            0 <= j < k ==> (#[trigger] queue[j]).uuid != uuid) ==> {
            &&& position_from(queue, uuid, 0) == Some(k)
            &&& without_number(queue, uuid) == queue.take(k) + queue.skip(k + 1)
            &&& k > 0 ==> with_second(queue, uuid) == seq![queue[0], queue[k]] + queue.subrange(1, k)
                + queue.skip(k + 1)
            &&& k > 0 ==> with_front_replaced(queue, uuid) == seq![queue[k]] + queue.subrange(1, k)
                + queue.skip(k + 1)
        },
        (forall|j: int| 0 <= j < queue.len() ==> (#[trigger] queue[j]).uuid != uuid) ==> {
            &&& position_from(queue, uuid, 0) is None
            &&& without_number(queue, uuid) == queue
            &&& with_second(queue, uuid) == queue
            &&& queue.len() > 0 ==> with_front_replaced(queue, uuid) == queue.skip(1)
        },
{
    lemma_position(queue, uuid, 0);
    lemma_position_first(queue, uuid, k, 0);
    if 0 <= k < queue.len() && position_from(queue, uuid, 0) == Some(k) {
        assert(queue.remove(k) =~= queue.take(k) + queue.skip(k + 1));
        if k > 0 {
            assert(with_second(queue, uuid) =~= seq![queue[0], queue[k]] + queue.subrange(1, k)
                + queue.skip(k + 1));
            assert(with_front_replaced(queue, uuid) =~= seq![queue[k]] + queue.subrange(1, k)
                + queue.skip(k + 1));
        }
    }
}

proof fn lemma_position_first<T>(queue: Seq<Entry<T>>, uuid: u128, k: int, from: int)
    requires
        0 <= from,
    ensures
        from <= k < queue.len() && queue[k].uuid == uuid && (forall|j: int|
            from <= j < k ==> (#[trigger] queue[j]).uuid != uuid) ==> position_from(
            queue,
            uuid,
            from,
        ) == Some(k),
    decreases queue.len() - from,
{
    if from < queue.len() {
        lemma_position_first(queue, uuid, k, from + 1);
    }
}

/// Where the number is the front's own, moving it to index 1 swaps it with
/// the track behind it, and swapping it in for the front drops that one.
pub proof fn law_front_is_found_too<T>(queue: Seq<Entry<T>>, uuid: u128)
    requires
        queue.len() > 0,
        queue[0].uuid == uuid,
    ensures
        queue.len() == 1 ==> with_second(queue, uuid) == queue && with_front_replaced(queue, uuid)
            == queue,
        queue.len() > 1 ==> with_second(queue, uuid) == seq![queue[1], queue[0]] + queue.skip(2),
        queue.len() > 1 ==> with_front_replaced(queue, uuid) == seq![queue[0]] + queue.skip(2),
{
    assert(position_from(queue, uuid, 0) == Some(0int));
    assert(queue.remove(0) =~= queue.skip(1));
    if queue.len() == 1 {
        assert(with_second(queue, uuid) =~= queue);
        assert(with_front_replaced(queue, uuid) =~= queue);
    } else {
        assert(with_second(queue, uuid) =~= seq![queue[1], queue[0]] + queue.skip(2));
        assert(with_front_replaced(queue, uuid) =~= seq![queue[0]] + queue.skip(2));
    }
}

} // verus!
