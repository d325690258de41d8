//! Derived track metadata (YouTube thumbnails) and seeking. A seek builds a
//! new track that starts at the target and stands in for the current one.

use vstd::prelude::*;

use crate::audio_source::FfmpegEqSource;
use crate::player::state::TrackMeta;
use crate::text;
use crate::text::{chars_of, contains_text, find, lower_chars, slice_text};
use crate::time::{Duration, MAX_NANOS, NANOS_PER_SEC};

verus! {

/// The characters that end a video id.
pub open spec fn ends_id(c: char) -> bool {
    c == '?' || c == '&' || c == '#' || c == '/'
}

/// The first index at or after `i` that ends a video id, or the length.
pub open spec fn id_end(s: Seq<char>, i: int) -> int
    decreases s.len() - i,
{
    if 0 <= i < s.len() && !ends_id(s[i]) {
        id_end(s, i + 1)
    } else {
        i
    }
}

/// The video id that `s` begins with, if it is not empty.
pub open spec fn leading_id(s: Seq<char>) -> Option<Seq<char>> {
    let id = s.take(id_end(s, 0));
    if id.len() > 0 {
        Some(id)
    } else {
        None
    }
}

/// What stands between the first `mark` in `s` and the next one, or the end.
pub open spec fn after_mark(s: Seq<char>, mark: Seq<char>) -> Option<Seq<char>> {
    match text::find_from(s, mark, 0) {
        Some(i) => {
            let rest = s.skip(i + mark.len());
            match text::find_from(rest, mark, 0) {
                Some(j) => Some(rest.take(j)),
                None => Some(rest),
            }
        },
        None => None,
    }
}

/// The YouTube video id in `url`: after `youtu.be/`, or else after the first
/// `v=`, or else after `/shorts/`, or else after `/embed/`. A URL that names
/// neither of YouTube's hosts, in whatever case, has none.
pub open spec fn video_id(url: Seq<char>) -> Option<Seq<char>> {
    let lower = url.map_values(|c: char| text::ascii_lower(c));
    if !text::has_text(lower, "youtube.com"@) && !text::has_text(lower, "youtu.be"@) {
        None
    } else if let Some(after) = after_mark(url, "youtu.be/"@) {
        leading_id(after)
    } else if let Some(i) = text::find_from(url, "v="@, 0) {
        leading_id(url.skip(i + "v="@.len()))
    } else if let Some(after) = after_mark(url, "/shorts/"@) {
        leading_id(after)
    } else if let Some(after) = after_mark(url, "/embed/"@) {
        leading_id(after)
    } else {
        None
    }
}

/// The thumbnail of the YouTube video that `url` leads to.
pub open spec fn thumbnail_of(url: Seq<char>) -> Option<Seq<char>> {
    match video_id(url) {
        Some(id) => Some("https://i.ytimg.com/vi/"@ + id + "/hqdefault.jpg"@),
        None => None,
    }
}

/// The video id between `from` and `to`, if it is not empty.
fn take_id(chars: &Vec<char>, from: usize, to: usize) -> (id: Option<String>)
    requires
        from <= to <= chars@.len(),
    ensures
        text::opt_text(id) == leading_id(chars@.subrange(from as int, to as int)),
{
    let ghost piece = chars@.subrange(from as int, to as int);
    let mut end: usize = from;
    while end < to && !(chars[end] == '?' || chars[end] == '&' || chars[end] == '#' || chars[end]
        == '/')
        invariant
            from <= end <= to <= chars@.len(),
            piece == chars@.subrange(from as int, to as int),
            id_end(piece, 0) == id_end(piece, end - from),
        decreases to - end,
    {
        assert(piece[end - from] == chars@[end as int]);
        end += 1;
    }
    proof {
        if end < to {
            assert(piece[end - from] == chars@[end as int]);
        }
        assert(id_end(piece, 0) == end - from);
        assert(piece.take(end - from) =~= chars@.subrange(from as int, end as int));
    }
    if end == from {
        None
    } else {
        Some(slice_text(chars, from, end))
    }
}

/// The video id after `mark`, when `mark` is there: `None` says it is not.
fn id_after(chars: &Vec<char>, mark: &str) -> (id: Option<Option<String>>)
    ensures
        match id {
            Some(found) => after_mark(chars@, mark@) is Some && text::opt_text(found) == leading_id(
                after_mark(chars@, mark@)->0,
            ),
            None => after_mark(chars@, mark@) is None,
        },
{
    let needle = chars_of(mark);
    match find(chars, &needle, 0) {
        Some(i) => {
            let start: usize = i + needle.len();
            let rest = skip_chars(chars, start);
            match find(&rest, &needle, 0) {
                Some(j) => {
                    assert(rest@.subrange(0, j as int) =~= rest@.take(j as int));
                    Some(take_id(&rest, 0, j))
                },
                None => {
                    assert(rest@.subrange(0, rest@.len() as int) =~= rest@);
                    Some(take_id(&rest, 0, rest.len()))
                },
            }
        },
        None => None,
    }
}

/// The characters from `from` on.
fn skip_chars(chars: &Vec<char>, from: usize) -> (rest: Vec<char>)
    requires
        from <= chars@.len(),
    ensures
        rest@ == chars@.skip(from as int),
{
    let mut rest: Vec<char> = Vec::new();
    let mut i: usize = from;
    while i < chars.len()
        invariant
            from <= i <= chars@.len(),
            rest@ =~= chars@.subrange(from as int, i as int),
        decreases chars@.len() - i,
    {
        rest.push(chars[i]);
        i += 1;
    }
    assert(rest@ =~= chars@.skip(from as int));
    rest
}

/// The YouTube video id in `url`, if it has a recognised shape.
pub fn youtube_video_id(url: &str) -> (id: Option<String>)
    ensures
        text::opt_text(id) == video_id(url@),
{
    let chars = chars_of(url);
    let lower = lower_chars(&chars);
    let long_host = chars_of("youtube.com");
    let short_host = chars_of("youtu.be");
    if !contains_text(&lower, &long_host) && !contains_text(&lower, &short_host) {
        return None;
    }
    if let Some(found) = id_after(&chars, "youtu.be/") {
        return found;
    }
    let mark = chars_of("v=");
    if let Some(i) = find(&chars, &mark, 0) {
        let start: usize = i + mark.len();
        assert(chars@.subrange(start as int, chars@.len() as int) =~= chars@.skip(start as int));
        return take_id(&chars, start, chars.len());
    }
    if let Some(found) = id_after(&chars, "/shorts/") {
        return found;
    }
    if let Some(found) = id_after(&chars, "/embed/") {
        return found;
    }
    None
}

/// Best-effort thumbnail URL derived from a YouTube video ID. Returns `None`
/// for non-YouTube URLs or unrecognised URL shapes.
pub fn derive_youtube_thumbnail(url: &str) -> (thumbnail: Option<String>)
    ensures
        text::opt_text(thumbnail) == thumbnail_of(url@),
{
    match youtube_video_id(url) {
        Some(id) => {
            let mut thumbnail = "https://i.ytimg.com/vi/".to_owned();
            thumbnail.append(id.as_str());
            thumbnail.append("/hqdefault.jpg");
            Some(thumbnail)
        },
        None => None,
    }
}

/// A video id is never empty and holds none of the characters that end one.
pub proof fn law_video_id_is_clean(url: Seq<char>)
    ensures
        video_id(url) matches Some(id) ==> id.len() > 0 && forall|i: int|
            0 <= i < id.len() ==> !ends_id(#[trigger] id[i]),
{
    if let Some(after) = after_mark(url, "youtu.be/"@) {
        lemma_leading_id_is_clean(after);
    }
    if let Some(i) = text::find_from(url, "v="@, 0) {
        lemma_leading_id_is_clean(url.skip(i + "v="@.len()));
    }
    if let Some(after) = after_mark(url, "/shorts/"@) {
        lemma_leading_id_is_clean(after);
    }
    if let Some(after) = after_mark(url, "/embed/"@) {
        lemma_leading_id_is_clean(after);
    }
}

proof fn lemma_leading_id_is_clean(s: Seq<char>)
    ensures
        leading_id(s) matches Some(id) ==> id.len() > 0 && forall|i: int|
            0 <= i < id.len() ==> !ends_id(#[trigger] id[i]),
{
    lemma_id_end(s, 0);
}

proof fn lemma_id_end(s: Seq<char>, i: int)
    requires
        0 <= i <= s.len(),
    ensures
        i <= id_end(s, i) <= s.len(),
        forall|j: int| i <= j < id_end(s, i) ==> !ends_id(#[trigger] s[j]),
    decreases s.len() - i,
{
    if i < s.len() && !ends_id(s[i]) {
        lemma_id_end(s, i + 1);
    }
}

/// Where a seek ends up: no further than the track's end, when that is known.
pub open spec fn clamped(duration: Option<Duration>, target: Duration) -> Duration {
    match duration {
        Some(d) => if target@ <= d@ {
            target
        } else {
            d
        },
        None => target,
    }
}

/// A seek that is ready to be carried out: the track that starts at the
/// target and replaces the current one at the front of the queue.
#[derive(Debug, PartialEq, Eq)]
pub struct SeekPlan {
    pub target: Duration,
    pub source: FfmpegEqSource,
    pub meta: TrackMeta,
}

/// Plans a seek of the currently playing track to an absolute position,
/// clamped to its duration when that is known.
pub fn seek_to(current: Option<&TrackMeta>, extra_args: &Vec<String>, target: Duration) -> (plan:
    Result<SeekPlan, String>)
    ensures
        match plan {
            Ok(p) => {
                &&& current is Some
                &&& p.target == clamped(current->0.duration, target)
                &&& p.meta.is_seek_of(*current->0, p.target)
                &&& p.source.plays(*current->0, extra_args@, Some(p.target))
            },
            Err(e) => current is None && e@ == "Nothing is playing."@,
        },
{
    match current {
        Some(meta) => {
            let target = match meta.duration {
                Some(duration) => target.min(duration),
                None => target,
            };
            Ok(
                SeekPlan {
                    target,
                    source: FfmpegEqSource::for_track(meta, extra_args, Some(target)),
                    meta: meta.seeked(target),
                },
            )
        },
        None => Err("Nothing is playing.".to_owned()),
    }
}

/// The position `delta_secs` seconds away from `position`, within range.
pub open spec fn moved(position: nat, delta_secs: int) -> nat {
    let sum = position + delta_secs * NANOS_PER_SEC;
    if sum < 0 {
        0
    } else if sum > MAX_NANOS {
        MAX_NANOS as nat
    } else {
        sum as nat
    }
}

/// The target of a relative seek from `position`.
pub fn relative_target(position: Duration, delta_secs: i64) -> (target: Duration)
    ensures
        target@ == moved(position@, delta_secs as int),
{
    if delta_secs < 0 {
        let back: u64 = (-(delta_secs as i128)) as u64;
        position.saturating_sub(Duration::from_secs(back))
    } else {
        position.saturating_add(Duration::from_secs(delta_secs as u64))
    }
}

/// Plans a seek of the currently playing track by `delta_secs` seconds
/// (negative rewinds), relative to its real position: how far its input has
/// played plus the offset at which that started. `position` is the input's
/// position, or why it cannot be had.
pub fn seek_by(
    current: Option<&TrackMeta>,
    position: Result<Duration, String>,
    extra_args: &Vec<String>,
    delta_secs: i64,
) -> (plan: Result<SeekPlan, String>)
    requires
        current is Some && position is Ok ==> position->Ok_0@ + current->0.start_offset@
            <= MAX_NANOS,
    ensures
        match plan {
            Ok(p) => {
                &&& current is Some
                &&& position is Ok
                &&& p.target@ == ({
                    let there = moved(
                        position->Ok_0@ + current->0.start_offset@,
                        delta_secs as int,
                    );
                    match current->0.duration {
                        Some(d) => if there <= d@ {
                            there
                        } else {
                            d@
                        },
                        None => there,
                    }
                })
                &&& p.meta.is_seek_of(*current->0, p.target)
                &&& p.source.plays(*current->0, extra_args@, Some(p.target))
            },
            Err(e) => if current is None {
                e@ == "Nothing is playing."@
            } else {
                position matches Err(cause) && e@ == "⚠️ "@ + cause@
            },
        },
{
    match current {
        Some(meta) => match position {
            Ok(played) => {
                let target = relative_target(played.plus(meta.start_offset), delta_secs);
                seek_to(current, extra_args, target)
            },
            Err(cause) => {
                let mut message = "⚠️ ".to_owned();
                message.append(cause.as_str());
                Err(message)
            },
        },
        None => Err("Nothing is playing.".to_owned()),
    }
}

/// A seek goes where it is asked to, but never past a known end.
pub proof fn law_seek_stops_at_the_end(duration: Option<Duration>, target: Duration)
    ensures
        duration is None ==> clamped(duration, target) == target,
        duration matches Some(d) ==> {
            &&& clamped(duration, target)@ <= d@
            &&& clamped(duration, target)@ <= target@
            &&& target@ <= d@ ==> clamped(duration, target) == target
            &&& target@ >= d@ ==> clamped(duration, target)@ == d@
        },
{
}

/// A relative seek moves by whole seconds, stops at the start, and leads
/// back again where it did not have to stop.
pub proof fn law_relative_seek_moves_by_seconds(position: nat, secs: nat)
    requires
        position <= MAX_NANOS,
    ensures
        position + secs * 1_000_000_000 <= MAX_NANOS ==> {
            &&& moved(position, secs as int) == position + secs * 1_000_000_000
            &&& moved(moved(position, secs as int), -(secs as int)) == position
        },
        position + secs * 1_000_000_000 > MAX_NANOS ==> moved(position, secs as int) == MAX_NANOS,
        position >= secs * 1_000_000_000 ==> moved(position, -(secs as int)) + secs * 1_000_000_000
            == position,
        position < secs * 1_000_000_000 ==> moved(position, -(secs as int)) == 0,
        moved(position, 0) == position,
{
}

/// Whether a text is a video id: not empty, and free of the characters that
/// end one.
pub open spec fn is_plain_id(id: Seq<char>) -> bool {
    &&& id.len() > 0
    &&& forall|i: int|
        0 <= i < id.len() ==> {
            let c = #[trigger] id[i];
            c != '?' && c != '&' && c != '#' && c != '/'
        }
}

/// Whether a text ends a video id before it: it is empty, or begins a query,
/// a fragment or another path segment.
pub open spec fn is_tail(tail: Seq<char>) -> bool {
    tail.len() == 0 || tail[0] == '?' || tail[0] == '&' || tail[0] == '#' || tail[0] == '/'
}

/// Whether an URL names one of YouTube's hosts, in whatever case.
pub open spec fn names_youtube(url: Seq<char>) -> bool {
    let lower = url.map_values(|c: char| text::ascii_lower(c));
    text::has_text(lower, "youtube.com"@) || text::has_text(lower, "youtu.be"@)
}

/// An id that is followed by its end is read off the front.
proof fn lemma_leading_id(id: Seq<char>, tail: Seq<char>)
    requires
        is_plain_id(id),
        is_tail(tail),
    ensures
        leading_id(id + tail) == Some(id),
{
    let s = id + tail;
    lemma_id_end_at(s, 0, id.len() as int);
    assert(s.take(id.len() as int) =~= id);
}

proof fn lemma_id_end_at(s: Seq<char>, i: int, end: int)
    requires
        0 <= i <= end <= s.len(),
        forall|j: int| i <= j < end ==> !ends_id(#[trigger] s[j]),
        end < s.len() ==> ends_id(s[end]),
    ensures
        id_end(s, i) == end,
    decreases end - i,
{
    if i < end {
        lemma_id_end_at(s, i + 1, end);
    }
}

/// Cutting the text behind a mark off at the next mark does not cut the id.
proof fn lemma_after_mark(url: Seq<char>, mark: Seq<char>, i: int, id: Seq<char>, tail: Seq<char>)
    requires
        text::find_from(url, mark, 0) == Some(i),
        url.skip(i + mark.len()) == id + tail,
        is_plain_id(id),
        is_tail(tail),
        forall|j: int| 0 <= j < id.len() ==> !#[trigger] text::occurs_at(id + tail, mark, j),
    ensures
        after_mark(url, mark) is Some,
        leading_id(after_mark(url, mark)->0) == Some(id),
{
    let rest = id + tail;
    text::law_first_occurrence_is_found(rest, mark, 0);
    if let Some(j) = text::find_from(rest, mark, 0) {
        let cut = tail.take(j - id.len());
        assert(rest.take(j) =~= id + cut);
        lemma_leading_id(id, cut);
    } else {
        lemma_leading_id(id, tail);
    }
}

/// A short link leads to the id behind its host, up to the next query,
/// fragment or path segment, or to the host's next mention.
pub proof fn law_short_links_are_read(url: Seq<char>, i: int, id: Seq<char>, tail: Seq<char>)
    requires
        text::find_from(url, "youtu.be/"@, 0) == Some(i),
        url.skip(i + 9) == id + tail,
        is_plain_id(id),
        is_tail(tail),
        forall|j: int| 0 <= j < id.len() ==> !#[trigger] text::occurs_at(id + tail, "youtu.be/"@, j),
    ensures
        video_id(url) == Some(id),
        thumbnail_of(url) == Some("https://i.ytimg.com/vi/"@ + id + "/hqdefault.jpg"@),
{
    reveal_strlit("youtu.be/");
    reveal_strlit("youtu.be");
    let mark = "youtu.be/"@;
    text::law_first_occurrence_is_found(url, mark, 0);
    let lower = url.map_values(|c: char| text::ascii_lower(c));
    assert(text::occurs_at(lower, "youtu.be"@, i)) by {
        let piece = url.subrange(i, i + 9);
        assert(piece == mark);
        assert forall|k: int| 0 <= k < 8 implies lower.subrange(i, i + 8)[k] == "youtu.be"@[k] by {
            assert(piece[k] == url[i + k]);
            assert(mark[k] == "youtu.be"@[k]);
        }
        assert(lower.subrange(i, i + 8) =~= "youtu.be"@);
    }
    lemma_after_mark(url, mark, i, id, tail);
}

/// A watch page leads to the id behind `v=`, wherever that stands in the
/// address.
pub proof fn law_watch_pages_are_read(url: Seq<char>, i: int, id: Seq<char>, tail: Seq<char>)
    requires
        names_youtube(url),
        text::find_from(url, "youtu.be/"@, 0) is None,
        text::find_from(url, "v="@, 0) == Some(i),
        url.skip(i + 2) == id + tail,
        is_plain_id(id),
        is_tail(tail),
    ensures
        video_id(url) == Some(id),
        thumbnail_of(url) == Some("https://i.ytimg.com/vi/"@ + id + "/hqdefault.jpg"@),
{
    reveal_strlit("v=");
    lemma_leading_id(id, tail);
}

/// Shorts and embedded players lead to the id behind their path.
pub proof fn law_shorts_and_embeds_are_read(
    url: Seq<char>,
    shorts: bool,
    i: int,
    id: Seq<char>,
    tail: Seq<char>,
)
    requires
        names_youtube(url),
        text::find_from(url, "youtu.be/"@, 0) is None,
        text::find_from(url, "v="@, 0) is None,
        shorts ==> text::find_from(url, "/shorts/"@, 0) == Some(i) && url.skip(i + 8) == id + tail,
        !shorts ==> text::find_from(url, "/shorts/"@, 0) is None && text::find_from(
            url,
            "/embed/"@,
            0,
        ) == Some(i) && url.skip(i + 7) == id + tail,
        is_plain_id(id),
        is_tail(tail),
    ensures
        video_id(url) == Some(id),
        thumbnail_of(url) == Some("https://i.ytimg.com/vi/"@ + id + "/hqdefault.jpg"@),
{
    reveal_strlit("/shorts/");
    reveal_strlit("/embed/");
    let mark = if shorts {
        "/shorts/"@
    } else {
        "/embed/"@
    };
    let rest = id + tail;
    assert forall|j: int| 0 <= j < id.len() implies !#[trigger] text::occurs_at(rest, mark, j) by {
        if text::occurs_at(rest, mark, j) {
            assert(rest.subrange(j, j + mark.len())[0] == '/');
            assert(id[j] == '/');
        }
    }
    lemma_after_mark(url, mark, i, id, tail);
}

/// Other addresses have no video id and no derived thumbnail: those of other
/// hosts, those of none of the known shapes, and those that end before the
/// id.
pub proof fn law_other_addresses_have_no_id(url: Seq<char>, i: int)
    ensures
        !names_youtube(url) ==> video_id(url) is None && thumbnail_of(url) is None,
        text::find_from(url, "youtu.be/"@, 0) is None && text::find_from(url, "v="@, 0) is None
            && text::find_from(url, "/shorts/"@, 0) is None && text::find_from(url, "/embed/"@, 0)
            is None ==> video_id(url) is None && thumbnail_of(url) is None,
        text::find_from(url, "youtu.be/"@, 0) is None && text::find_from(url, "v="@, 0) == Some(i)
            && 0 <= i && i + 2 <= url.len() && is_tail(url.skip(i + 2)) ==> video_id(url) is None,
{
    reveal_strlit("v=");
    let rest = url.skip(i + 2);
    if 0 <= i && i + 2 <= url.len() && is_tail(rest) {
        assert(id_end(rest, 0) == 0);
    }
}

/// An address that ends, or goes on to a query, a fragment or another path
/// segment, right where its id should begin has none.
pub proof fn law_addresses_without_an_id(url: Seq<char>, i: int)
    ensures
        text::find_from(url, "youtu.be/"@, 0) == Some(i) && is_tail(url.skip(i + 9)) ==> video_id(
            url,
        ) is None,
        text::find_from(url, "youtu.be/"@, 0) is None && text::find_from(url, "v="@, 0) is None ==> {
            &&& text::find_from(url, "/shorts/"@, 0) == Some(i) && is_tail(url.skip(i + 8))
                ==> video_id(url) is None
            &&& text::find_from(url, "/shorts/"@, 0) is None && text::find_from(url, "/embed/"@, 0)
                == Some(i) && is_tail(url.skip(i + 7)) ==> video_id(url) is None
        },
{
    reveal_strlit("youtu.be/");
    reveal_strlit("/shorts/");
    reveal_strlit("/embed/");
    lemma_no_id_after_mark(url, "youtu.be/"@, i);
    lemma_no_id_after_mark(url, "/shorts/"@, i);
    lemma_no_id_after_mark(url, "/embed/"@, i);
}

proof fn lemma_no_id_after_mark(url: Seq<char>, mark: Seq<char>, i: int)
    ensures
        text::find_from(url, mark, 0) == Some(i) && is_tail(url.skip(i + mark.len()))
            ==> after_mark(url, mark) is Some && leading_id(after_mark(url, mark)->0) is None,
{
    if text::find_from(url, mark, 0) == Some(i) && is_tail(url.skip(i + mark.len())) {
        let rest = url.skip(i + mark.len());
        text::law_first_occurrence_is_found(rest, mark, 0);
        assert(id_end(rest, 0) == 0);
        if let Some(j) = text::find_from(rest, mark, 0) {
            assert(id_end(rest.take(j), 0) == 0);
        }
    }
}

} // verus!
