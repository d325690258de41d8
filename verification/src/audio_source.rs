//! A track's audio source: resolves the track's direct CDN URL through
//! `yt-dlp -j`, then has `ffmpeg` fetch that URL and apply the active EQ
//! filter while decoding to raw PCM.

use vstd::prelude::*;

use crate::double;
use crate::double::thousandths;
use crate::eq;
use crate::eq::balanced_profile;
use crate::json;
use crate::json::{parse_entry, EntryView, JsonEntry, JsonObject, ObjectView};
use crate::player::state::TrackMeta;
use crate::text;
use crate::text::{blank, copy_texts, lines, push_nat, push_text, push_texts, same_text, trim};
use crate::time::Duration;

verus! {

/// Lazily resolves `url` to a direct CDN stream URL, then has `ffmpeg` fetch
/// it and apply the EQ filter.
#[derive(Debug, PartialEq, Eq)]
pub struct FfmpegEqSource {
    pub url: String,
    /// Forwarded to the `yt-dlp -j` metadata lookup verbatim.
    pub ytdlp_extra_args: Vec<String>,
    /// `None` = Balanced; `Some(filter)` = Hi-Fi, applying this ffmpeg `-af`
    /// filtergraph verbatim.
    pub eq_filter: Option<String>,
    /// When set, ffmpeg seeks to this position before decoding.
    pub seek_time: Option<Duration>,
}

impl FfmpegEqSource {
    /// Whether this source plays `meta`'s track from `seek_time`.
    pub open spec fn plays(
        self,
        meta: TrackMeta,
        extra_args: Seq<String>,
        seek_time: Option<Duration>,
    ) -> bool {
        &&& self.url == meta.url
        &&& self.ytdlp_extra_args@ == extra_args
        &&& self.eq_filter == meta.eq_filter
        &&& self.seek_time == seek_time
    }

    /// The source that plays `meta`'s track from `seek_time`.
    pub fn for_track(
        meta: &TrackMeta,
        extra_args: &Vec<String>,
        seek_time: Option<Duration>,
    ) -> (source: Self)
        ensures
            source.plays(*meta, extra_args@, seek_time),
    {
        FfmpegEqSource {
            url: meta.url.clone(),
            ytdlp_extra_args: copy_texts(extra_args),
            eq_filter: meta.eq_filter.clone(),
            seek_time,
        }
    }
}

/// The arguments of the metadata-only `yt-dlp -j` lookup for `url`.
pub fn resolve_args(url: &str, extra_args: &Vec<String>) -> (args: Vec<String>)
    ensures
        text::texts(args@) == text::texts(extra_args@) + seq![
            "-f"@,
            "bestaudio/best"@,
            "--no-playlist"@,
            "--no-warnings"@,
            "--quiet"@,
            "-j"@,
            url@,
        ],
{
    let mut fixed: Vec<String> = Vec::new();
    assert(text::texts(fixed@) =~= Seq::<Seq<char>>::empty());
    push_text(&mut fixed, "-f");
    push_text(&mut fixed, "bestaudio/best");
    push_text(&mut fixed, "--no-playlist");
    push_text(&mut fixed, "--no-warnings");
    push_text(&mut fixed, "--quiet");
    push_text(&mut fixed, "-j");
    push_text(&mut fixed, url);
    let mut args = copy_texts(extra_args);
    push_texts(&mut args, &fixed);
    args
}

/// Where a double stands in the total order of doubles, by its bits.
pub open spec fn total_order(bits: u64) -> int {
    if bits < 0x8000_0000_0000_0000 {
        bits as int
    } else {
        0x7fff_ffff_ffff_ffff - bits
    }
}

/// A list element's bit rate, by its bits; zero where none is given.
pub open spec fn row_bit_rate(row: ObjectView) -> u64 {
    match json::lookup(row, "abr"@) {
        Some(value) => match value.float_bits {
            Some(bits) => bits,
            None => 0,
        },
        None => 0,
    }
}

/// Whether a format carries no video and says where to fetch it.
pub open spec fn is_audio_only(row: ObjectView) -> bool {
    json::text_under(row, "vcodec"@) == Some("none"@) && json::text_under(row, "url"@) is Some
}

/// The audio-only formats, in order.
pub open spec fn audio_formats(
    rows: Seq<ObjectView>,
) -> Seq<ObjectView> {
    rows.filter(|row: ObjectView| is_audio_only(row))
}

/// The index of the format with the highest bit rate, the last one among
/// equals.
pub open spec fn best_format(rows: Seq<ObjectView>) -> int
    decreases rows.len(),
{
    if rows.len() <= 1 {
        0
    } else {
        let earlier = best_format(rows.drop_last());
        if total_order(row_bit_rate(rows.last())) >= total_order(row_bit_rate(rows[earlier])) {
            rows.len() - 1
        } else {
            earlier
        }
    }
}

/// The stream URL that an entry reports: its own, or else that of its best
/// audio-only format.
pub open spec fn stream_url_of(entry: EntryView) -> Option<Seq<char>> {
    match json::text_under(entry.object, "url"@) {
        Some(url) => Some(url),
        None => match entry.formats {
            Some(rows) => {
                let formats = audio_formats(rows);
                if formats.len() > 0 {
                    json::text_under(formats[best_format(formats)], "url"@)
                } else {
                    None
                }
            },
            None => None,
        },
    }
}

/// Whether the double with bits `a` is at least the one with bits `b`, in
/// the total order of doubles.
fn at_least(a: u64, b: u64) -> (yes: bool)
    ensures
        yes == (total_order(a) >= total_order(b)),
{
    let half: u64 = 0x8000_0000_0000_0000;
    if a < half && b < half {
        a >= b
    } else if a >= half && b >= half {
        a <= b
    } else {
        a < half
    }
}

/// A list element's bit rate, by its bits.
fn bit_rate_of(row: &JsonObject) -> (bits: u64)
    ensures
        bits == row_bit_rate(row@),
{
    match row.get("abr") {
        Some(value) => match value.float_bits {
            Some(bits) => bits,
            None => 0,
        },
        None => 0,
    }
}

/// Whether a format carries no video and says where to fetch it.
fn audio_only(row: &JsonObject) -> (yes: bool)
    ensures
        yes == is_audio_only(row@),
{
    match row.text("vcodec") {
        Some(codec) => same_text(codec.as_str(), "none") && row.text("url").is_some(),
        None => false,
    }
}

/// The best format is one of the formats.
proof fn lemma_best_format_in_range(rows: Seq<ObjectView>)
    requires
        rows.len() > 0,
    ensures
        0 <= best_format(rows) < rows.len(),
    decreases rows.len(),
{
    if rows.len() > 1 {
        lemma_best_format_in_range(rows.drop_last());
    }
}

/// No audio-only format has a higher bit rate than the one that is played,
/// and the ones after it all have a lower one.
pub proof fn law_best_format_has_the_highest_bit_rate(
    rows: Seq<ObjectView>,
)
    requires
        rows.len() > 0,
    ensures
        0 <= best_format(rows) < rows.len(),
        forall|j: int|
            0 <= j < rows.len() ==> total_order(row_bit_rate(#[trigger] rows[j])) <= total_order(
                row_bit_rate(rows[best_format(rows)]),
            ),
        forall|j: int|
            best_format(rows) < j < rows.len() ==> total_order(row_bit_rate(#[trigger] rows[j]))
                < total_order(row_bit_rate(rows[best_format(rows)])),
    decreases rows.len(),
{
    if rows.len() > 1 {
        let init = rows.drop_last();
        law_best_format_has_the_highest_bit_rate(init);
        assert forall|j: int| 0 <= j < rows.len() - 1 implies rows[j] == init[j] by {}
    }
}

/// The row's bit rate decides where it stands among the audio formats.
proof fn lemma_next_format(
    rows: Seq<ObjectView>,
    i: int,
)
    requires
        0 <= i < rows.len(),
    ensures
        audio_formats(rows.take(i + 1)) == (if is_audio_only(rows[i]) {
            audio_formats(rows.take(i)).push(rows[i])
        } else {
            audio_formats(rows.take(i))
        }),
{
    reveal(Seq::filter);
    assert(rows.take(i + 1).drop_last() =~= rows.take(i));
    assert(rows.take(i + 1).last() == rows[i]);
}

/// Prefers the top-level `url` field; falls back to the highest-bitrate
/// audio-only entry in `formats`.
pub fn extract_stream_url(entry: &JsonEntry) -> (url: Option<String>)
    ensures
        text::opt_text(url) == stream_url_of(entry@),
        json::text_under(entry@.object, "url"@) matches Some(direct) ==> (url matches Some(u) && u@
            == direct),
{
    if let Some(direct) = entry.object.text("url") {
        return Some(direct);
    }
    match &entry.formats {
        Some(rows) => best_audio_url(rows),
        None => None,
    }
}

/// The URL of the best audio-only format.
fn best_audio_url(rows: &Vec<JsonObject>) -> (url: Option<String>)
    ensures
        text::opt_text(url) == ({
            let formats = audio_formats(rows@.map_values(|r: JsonObject| r@));
            if formats.len() > 0 {
                json::text_under(formats[best_format(formats)], "url"@)
            } else {
                None
            }
        }),
{
    let ghost all = rows@.map_values(|r: JsonObject| r@);
    let mut best: Option<usize> = None;
    let mut i: usize = 0;
    proof {
        reveal(Seq::filter);
        assert(all.take(0) =~= Seq::empty());
    }
    while i < rows.len()
        invariant
            i <= rows@.len(),
            all == rows@.map_values(|r: JsonObject| r@),
            match best {
                Some(k) => {
                    &&& k < i
                    &&& audio_formats(all.take(i as int)).len() > 0
                    &&& all[k as int] == audio_formats(all.take(i as int))[best_format(
                        audio_formats(all.take(i as int)),
                    )]
                },
                None => audio_formats(all.take(i as int)).len() == 0,
            },
        decreases rows@.len() - i,
    {
        let ghost before = audio_formats(all.take(i as int));
        let ghost after = audio_formats(all.take(i + 1));
        proof {
            lemma_next_format(all, i as int);
            assert(all[i as int] == rows@[i as int]@);
            if before.len() > 0 {
                lemma_best_format_in_range(before);
            }
        }
        if audio_only(&rows[i]) {
            assert(after.drop_last() =~= before);
            match best {
                Some(k) => if at_least(bit_rate_of(&rows[i]), bit_rate_of(&rows[k])) {
                    best = Some(i);
                },
                None => {
                    best = Some(i);
                },
            }
        }
        i += 1;
    }
    assert(all.take(i as int) =~= all);
    match best {
        Some(k) => rows[k].text("url"),
        None => None,
    }
}

/// How a run of an external tool ended.
#[derive(Debug, PartialEq, Eq)]
pub enum ToolOutcome {
    /// The tool could not be started.
    SpawnFailed(String),
    /// The tool exited.
    Finished { success: bool, stdout: String, stderr: String },
}

/// What a metadata entry, or the lack of one, resolves to.
pub open spec fn entry_resolution(entry: Option<EntryView>) -> Result<Seq<char>, Seq<char>> {
    match entry {
        Some(e) => match stream_url_of(e) {
            Some(url) => Ok(url),
            None => Err("yt-dlp did not report a playable stream URL"@),
        },
        None => Err("yt-dlp returned no usable metadata"@),
    }
}

/// The metadata entry on the first line that is not blank.
pub open spec fn first_entry(stdout: Seq<char>) -> Option<EntryView> {
    match text::first_solid_from(text::lines_from(stdout, 0), 0) {
        Some(line) => json::json_entry(line),
        None => None,
    }
}

/// What a metadata lookup resolves to.
pub open spec fn resolution(outcome: ToolOutcome) -> Result<Seq<char>, Seq<char>> {
    match outcome {
        ToolOutcome::SpawnFailed(e) => Err("failed to spawn yt-dlp: "@ + e@),
        ToolOutcome::Finished { success, stdout, stderr } => if success {
            entry_resolution(first_entry(stdout@))
        } else {
            Err("yt-dlp failed to resolve a stream URL: "@ + text::trimmed(stderr@))
        },
    }
}

/// Picks the stream URL out of a metadata entry, if there is one.
pub fn resolve_entry(entry: Option<&JsonEntry>) -> (url: Result<String, String>)
    ensures
        text::result_text(url) == entry_resolution(match entry {
            Some(e) => Some(e@),
            None => None,
        }),
{
    match entry {
        Some(e) => match extract_stream_url(e) {
            Some(url) => Ok(url),
            None => Err("yt-dlp did not report a playable stream URL".to_owned()),
        },
        None => Err("yt-dlp returned no usable metadata".to_owned()),
    }
}

/// Picks a direct, ffmpeg-fetchable stream URL out of a metadata-only
/// `yt-dlp -j` lookup.
pub fn resolve_stream_url(outcome: &ToolOutcome) -> (url: Result<String, String>)
    ensures
        text::result_text(url) == resolution(*outcome),
{
    match outcome {
        ToolOutcome::SpawnFailed(e) => {
            let mut message = "failed to spawn yt-dlp: ".to_owned();
            message.append(e.as_str());
            Err(message)
        },
        ToolOutcome::Finished { success, stdout, stderr } => {
            if !*success {
                let mut message = "yt-dlp failed to resolve a stream URL: ".to_owned();
                message.append(trim(stderr.as_str()).as_str());
                return Err(message);
            }
            let list = lines(stdout.as_str());
            let ghost all = text::texts(list@);
            let mut i: usize = 0;
            while i < list.len()
                invariant
                    i <= list@.len(),
                    all == text::texts(list@),
                    all == text::lines_from(stdout@, 0),
                    text::first_solid_from(all, 0) == text::first_solid_from(all, i as int),
                    *outcome == (ToolOutcome::Finished {
                        success: true,
                        stdout: *stdout,
                        stderr: *stderr,
                    }),
                decreases list@.len() - i,
            {
                assert(all[i as int] == list@[i as int]@);
                if !blank(list[i].as_str()) {
                    let entry = parse_entry(list[i].as_str());
                    return resolve_entry(entry.as_ref());
                }
                i += 1;
            }
            resolve_entry(None)
        },
    }
}

/// The thousandths of a second nearest to a span of so many nanoseconds, as
/// a double.
pub open spec fn nearest_millis(nanos: nat) -> nat {
    double::half_even(1000 * double::seconds(nanos), double::one())
}

/// A number of milliseconds as seconds with three fractional digits.
pub open spec fn seconds_text(millis: nat) -> Seq<char> {
    let rest = (millis % 1000) as int;
    text::nat_text(millis / 1000) + seq![
        '.',
        text::digit_char(rest / 100),
        text::digit_char(rest / 10 % 10),
        text::digit_char(rest % 10),
    ]
}

/// A position as seconds with three fractional digits: what the nearest
/// double prints as.
pub fn seek_argument(position: Duration) -> (text: String)
    ensures
        text@ == seconds_text(nearest_millis(position@)),
{
    let millis: u128 = thousandths(position);
    let tail: u64 = (millis % 1000) as u64;
    let mut text = String::new();
    push_wide(&mut text, millis / 1000);
    let ghost whole = text@;
    text.push('.');
    text.push((48u8 + (tail / 100) as u8) as char);
    text.push((48u8 + (tail / 10 % 10) as u8) as char);
    text.push((48u8 + (tail % 10) as u8) as char);
    assert(text@ =~= seconds_text(nearest_millis(position@)));
    text
}

/// Within four million seconds, a position is passed on as its nearest
/// millisecond, but that one halfway between two may be either.
pub proof fn law_seek_goes_to_the_nearest_millisecond(nanos: nat, millis: nat)
    requires
        nanos <= double::PRECISE_NANOS,
        millis * 1_000_000 < nanos + 500_000,
        nanos < millis * 1_000_000 + 500_000,
    ensures
        nearest_millis(nanos) == millis,
{
    double::lemma_thousandths_nearest(nanos, millis);
}

/// Appends a number of seconds in decimal; rounding up may have led one past
/// the range of `u64`.
fn push_wide(out: &mut String, n: u128)
    requires
        n <= 0x1_0000_0000_0000_0000,
    ensures
        final(out)@ == old(out)@ + text::nat_text(n as nat),
{
    if n >= 10 {
        push_nat(out, (n / 10) as u64);
    }
    out.push((48u8 + (n % 10) as u8) as char);
    assert(out@ =~= old(out)@ + text::nat_text(n as nat));
}

/// How ffmpeg reads its input: patiently and with deep buffers for Hi-Fi,
/// promptly for Balanced.
pub open spec fn input_options(hifi: bool) -> Seq<Seq<char>> {
    if hifi {
        seq![
            "-reconnect_delay_max"@,
            "10"@,
            "-rw_timeout"@,
            "15000000"@,
            "-thread_queue_size"@,
            "16384"@,
            "-analyzeduration"@,
            "10M"@,
            "-probesize"@,
            "10M"@,
            "-fflags"@,
            "+nobuffer+genpts"@,
        ]
    } else {
        seq![
            "-reconnect_delay_max"@,
            "5"@,
            "-rw_timeout"@,
            "5000000"@,
            "-thread_queue_size"@,
            "4096"@,
        ]
    }
}

/// The demuxer-level seek, when a position is given.
pub open spec fn seek_options(seek_time: Option<Duration>) -> Seq<Seq<char>> {
    match seek_time {
        Some(position) => seq!["-ss"@, seconds_text(nearest_millis(position@))],
        None => Seq::empty(),
    }
}

/// The arguments that lead up to the input.
pub open spec fn leading_options() -> Seq<Seq<char>> {
    seq![
        "-hide_banner"@,
        "-loglevel"@,
        "error"@,
        "-reconnect"@,
        "1"@,
        "-reconnect_streamed"@,
        "1"@,
    ]
}

/// The input, its filter, and the raw PCM output: 48 kHz stereo, matching
/// Discord's own audio requirement.
pub open spec fn stream_options(stream_url: Seq<char>, filter: Seq<char>) -> Seq<Seq<char>> {
    seq![
        "-i"@,
        stream_url,
        "-vn"@,
        "-af"@,
        filter,
        "-f"@,
        "f32le"@,
        "-ar"@,
        "48000"@,
        "-ac"@,
        "2"@,
        "pipe:1"@,
    ]
}

/// ffmpeg's whole command line.
pub open spec fn ffmpeg_line(
    stream_url: Seq<char>,
    eq_filter: Option<Seq<char>>,
    seek_time: Option<Duration>,
) -> Seq<Seq<char>> {
    let filter = match eq_filter {
        Some(f) => f,
        None => eq::balanced_filter(),
    };
    leading_options() + input_options(eq_filter is Some) + seek_options(seek_time)
        + stream_options(stream_url, filter)
}

/// The arguments for ffmpeg to fetch a stream, filter it, and write raw PCM
/// to its standard output.
pub fn spawn_pipeline(
    stream_url: &str,
    eq_filter: Option<&str>,
    seek_time: Option<Duration>,
) -> (args: Vec<String>)
    ensures
        text::texts(args@) == ffmpeg_line(
            stream_url@,
            match eq_filter {
                Some(f) => Some(f@),
                None => None,
            },
            seek_time,
        ),
{
    let mut args: Vec<String> = Vec::new();
    assert(text::texts(args@) =~= Seq::<Seq<char>>::empty());
    push_text(&mut args, "-hide_banner");
    push_text(&mut args, "-loglevel");
    push_text(&mut args, "error");
    push_text(&mut args, "-reconnect");
    push_text(&mut args, "1");
    push_text(&mut args, "-reconnect_streamed");
    push_text(&mut args, "1");
    push_texts(&mut args, &input_arguments(eq_filter.is_some()));
    push_texts(&mut args, &seek_arguments(seek_time));
    match eq_filter {
        Some(filter) => {
            push_texts(&mut args, &stream_arguments(stream_url, filter));
        },
        None => {
            let filter = balanced_profile().render();
            push_texts(&mut args, &stream_arguments(stream_url, filter.as_str()));
        },
    }
    args
}

fn input_arguments(hifi: bool) -> (args: Vec<String>)
    ensures
        text::texts(args@) == input_options(hifi),
{
    let mut args: Vec<String> = Vec::new();
    assert(text::texts(args@) =~= Seq::<Seq<char>>::empty());
    if hifi {
        push_text(&mut args, "-reconnect_delay_max");
        push_text(&mut args, "10");
        push_text(&mut args, "-rw_timeout");
        push_text(&mut args, "15000000");
        push_text(&mut args, "-thread_queue_size");
        push_text(&mut args, "16384");
        push_text(&mut args, "-analyzeduration");
        push_text(&mut args, "10M");
        push_text(&mut args, "-probesize");
        push_text(&mut args, "10M");
        push_text(&mut args, "-fflags");
        push_text(&mut args, "+nobuffer+genpts");
    } else {
        push_text(&mut args, "-reconnect_delay_max");
        push_text(&mut args, "5");
        push_text(&mut args, "-rw_timeout");
        push_text(&mut args, "5000000");
        push_text(&mut args, "-thread_queue_size");
        push_text(&mut args, "4096");
    }
    args
}

fn seek_arguments(seek_time: Option<Duration>) -> (args: Vec<String>)
    ensures
        text::texts(args@) == seek_options(seek_time),
{
    let mut args: Vec<String> = Vec::new();
    assert(text::texts(args@) =~= Seq::<Seq<char>>::empty());
    if let Some(position) = seek_time {
        push_text(&mut args, "-ss");
        push_text(&mut args, seek_argument(position).as_str());
    }
    args
}

fn stream_arguments(stream_url: &str, filter: &str) -> (args: Vec<String>)
    ensures
        text::texts(args@) == stream_options(stream_url@, filter@),
{
    let mut args: Vec<String> = Vec::new();
    assert(text::texts(args@) =~= Seq::<Seq<char>>::empty());
    push_text(&mut args, "-i");
    push_text(&mut args, stream_url);
    push_text(&mut args, "-vn");
    push_text(&mut args, "-af");
    push_text(&mut args, filter);
    push_text(&mut args, "-f");
    push_text(&mut args, "f32le");
    push_text(&mut args, "-ar");
    push_text(&mut args, "48000");
    push_text(&mut args, "-ac");
    push_text(&mut args, "2");
    push_text(&mut args, "pipe:1");
    args
}

/// A seek position stands before the input on ffmpeg's command line, so
/// nothing ahead of it is fetched only to be thrown away.
pub proof fn law_seek_precedes_input(
    stream_url: Seq<char>,
    eq_filter: Option<Seq<char>>,
    position: Duration,
)
    ensures
        ({
            let line = ffmpeg_line(stream_url, eq_filter, Some(position));
            let seek = (leading_options() + input_options(eq_filter is Some)).len() as int;
            &&& line[seek] == "-ss"@
            &&& line[seek + 1] == seconds_text(nearest_millis(position@))
            &&& line[seek + 2] == "-i"@
            &&& line[seek + 3] == stream_url
        }),
{
}

/// Without a seek position ffmpeg's command line is the same but for the
/// seek.
pub proof fn law_no_seek_without_position(
    stream_url: Seq<char>,
    eq_filter: Option<Seq<char>>,
    position: Duration,
)
    ensures
        ({
            let plain = ffmpeg_line(stream_url, eq_filter, None);
            let seeking = ffmpeg_line(stream_url, eq_filter, Some(position));
            let at = (leading_options() + input_options(eq_filter is Some)).len() as int;
            plain == seeking.take(at) + seeking.skip(at + 2)
        }),
{
    let plain = ffmpeg_line(stream_url, eq_filter, None);
    let seeking = ffmpeg_line(stream_url, eq_filter, Some(position));
    let at = (leading_options() + input_options(eq_filter is Some)).len() as int;
    assert(plain =~= seeking.take(at) + seeking.skip(at + 2));
}

/// A metadata entry's own `url` is what is played, whatever other fields and
/// formats the entry has.
pub proof fn law_direct_stream_is_played(entry: EntryView, url: Seq<char>)
    requires
        json::text_under(entry.object, "url"@) == Some(url),
    ensures
        stream_url_of(entry) == Some(url),
        entry_resolution(Some(entry)) == Ok::<Seq<char>, Seq<char>>(url),
{
}

/// Whether a format is for listening only, by its fields: it says that it
/// has no video codec, and where to fetch it.
pub open spec fn sounds_only(row: ObjectView, url: Seq<char>) -> bool {
    json::text_under(row, "vcodec"@) == Some("none"@) && json::text_under(row, "url"@) == Some(url)
}

/// Without a `url` of its own, an entry is played from one of its formats
/// that are for listening only: one that no other of them exceeds in bit
/// rate, and the last one among equals.
pub proof fn law_best_audio_format_is_played(entry: EntryView, rows: Seq<ObjectView>)
    requires
        json::text_under(entry.object, "url"@) is None,
        entry.formats == Some(rows),
    ensures
        stream_url_of(entry) matches Some(url) ==> exists|k: int|
            {
                &&& 0 <= k < rows.len()
                &&& sounds_only(#[trigger] rows[k], url)
                &&& forall|j: int, other: Seq<char>|
                    0 <= j < rows.len() && #[trigger] sounds_only(rows[j], other) ==> {
                        &&& total_order(row_bit_rate(rows[j])) <= total_order(row_bit_rate(rows[k]))
                        &&& j > k ==> total_order(row_bit_rate(rows[j])) < total_order(
                            row_bit_rate(rows[k]),
                        )
                    }
            },
        stream_url_of(entry) is None <==> forall|j: int, other: Seq<char>|
            0 <= j < rows.len() ==> !#[trigger] sounds_only(rows[j], other),
{
    lemma_best_of_all(rows);
    let formats = audio_formats(rows);
    if formats.len() > 0 {
        law_best_format_has_the_highest_bit_rate(formats);
        let best = formats[best_format(formats)];
        let k = choose|k: int|
            {
                &&& 0 <= k < rows.len()
                &&& #[trigger] rows[k] == best
                &&& is_audio_only(rows[k])
                &&& forall|j: int|
                    0 <= j < rows.len() && is_audio_only(#[trigger] rows[j]) ==> {
                        &&& total_order(row_bit_rate(rows[j])) <= total_order(row_bit_rate(rows[k]))
                        &&& j > k ==> total_order(row_bit_rate(rows[j])) < total_order(
                            row_bit_rate(rows[k]),
                        )
                    }
            };
        let url = json::text_under(best, "url"@)->0;
        assert(sounds_only(rows[k], url));
        assert forall|j: int, other: Seq<char>|
            0 <= j < rows.len() && #[trigger] sounds_only(rows[j], other) implies {
            &&& total_order(row_bit_rate(rows[j])) <= total_order(row_bit_rate(rows[k]))
            &&& j > k ==> total_order(row_bit_rate(rows[j])) < total_order(row_bit_rate(rows[k]))
        } by {
            assert(is_audio_only(rows[j]));
        }
    } else {
        assert forall|j: int, other: Seq<char>| 0 <= j < rows.len() implies !#[trigger] sounds_only(
            rows[j],
            other,
        ) by {
            if sounds_only(rows[j], other) {
                assert(is_audio_only(rows[j]));
            }
        }
    }
}

/// The best of the audio-only formats, found among all formats.
proof fn lemma_best_of_all(rows: Seq<ObjectView>)
    ensures
        audio_formats(rows).len() > 0 ==> exists|k: int|
            {
                &&& 0 <= k < rows.len()
                &&& #[trigger] rows[k] == audio_formats(rows)[best_format(audio_formats(rows))]
                &&& is_audio_only(rows[k])
                &&& forall|j: int|
                    0 <= j < rows.len() && is_audio_only(#[trigger] rows[j]) ==> {
                        &&& total_order(row_bit_rate(rows[j])) <= total_order(row_bit_rate(rows[k]))
                        &&& j > k ==> total_order(row_bit_rate(rows[j])) < total_order(
                            row_bit_rate(rows[k]),
                        )
                    }
            },
        audio_formats(rows).len() == 0 ==> forall|j: int|
            0 <= j < rows.len() ==> !is_audio_only(#[trigger] rows[j]),
    decreases rows.len(),
{
    reveal(Seq::filter);
    if rows.len() > 0 {
        let init = rows.drop_last();
        let last = rows.len() - 1;
        lemma_best_of_all(init);
        assert(forall|j: int| 0 <= j < last ==> init[j] == #[trigger] rows[j]);
        let before = audio_formats(init);
        let after = audio_formats(rows);
        if is_audio_only(rows[last]) {
            assert(after =~= before.push(rows[last]));
            assert(after.drop_last() =~= before);
            if before.len() > 0 {
                lemma_best_format_in_range(before);
                let k = choose|k: int|
                    {
                        &&& 0 <= k < init.len()
                        &&& #[trigger] init[k] == before[best_format(before)]
                        &&& is_audio_only(init[k])
                        &&& forall|j: int|
                            0 <= j < init.len() && is_audio_only(#[trigger] init[j]) ==> {
                                &&& total_order(row_bit_rate(init[j])) <= total_order(
                                    row_bit_rate(init[k]),
                                )
                                &&& j > k ==> total_order(row_bit_rate(init[j])) < total_order(
                                    row_bit_rate(init[k]),
                                )
                            }
                    };
                if total_order(row_bit_rate(rows[last])) >= total_order(row_bit_rate(rows[k])) {
                    assert(rows[last] == after[best_format(after)]);
                } else {
                    assert(rows[k] == after[best_format(after)]);
                }
            } else {
                assert(rows[last] == after[best_format(after)]);
            }
        } else {
            assert(after =~= before);
            if before.len() > 0 {
                let k = choose|k: int|
                    {
                        &&& 0 <= k < init.len()
                        &&& #[trigger] init[k] == before[best_format(before)]
                        &&& is_audio_only(init[k])
                        &&& forall|j: int|
                            0 <= j < init.len() && is_audio_only(#[trigger] init[j]) ==> {
                                &&& total_order(row_bit_rate(init[j])) <= total_order(
                                    row_bit_rate(init[k]),
                                )
                                &&& j > k ==> total_order(row_bit_rate(init[j])) < total_order(
                                    row_bit_rate(init[k]),
                                )
                            }
                    };
                assert(rows[k] == after[best_format(after)]);
            }
        }
    }
}

/// Without a `url` of its own and without formats there is nothing to play.
pub proof fn law_nothing_to_play_without_formats(entry: EntryView)
    requires
        json::text_under(entry.object, "url"@) is None,
        entry.formats is None,
    ensures
        stream_url_of(entry) is None,
{
}

/// A format's bit rate is the number under `abr`, and zero where that is no
/// number; numbers that are not negative are ordered as their bits are, and
/// stand above all negative ones.
pub proof fn law_bit_rates_are_ordered(row: ObjectView, a: u64, b: u64)
    ensures
        json::lookup(row, "abr"@) matches Some(value) ==> (value.float_bits matches Some(bits)
            ==> row_bit_rate(row) == bits),
        (json::lookup(row, "abr"@) is None || json::lookup(row, "abr"@)->0.float_bits is None)
            ==> row_bit_rate(row) == 0,
        a <= b < 0x8000_0000_0000_0000 ==> total_order(a) <= total_order(b),
        a < b < 0x8000_0000_0000_0000 ==> total_order(a) < total_order(b),
        b < 0x8000_0000_0000_0000 <= a ==> total_order(a) < total_order(b),
        0x8000_0000_0000_0000 <= a < b ==> total_order(b) < total_order(a),
{
}

/// What a lookup resolves to is decided by the first line that is not blank,
/// and only if yt-dlp exited well; every other outcome says what went wrong.
pub proof fn law_lookup_reads_the_first_line(outcome: ToolOutcome, k: int)
    ensures
        outcome matches ToolOutcome::SpawnFailed(e) ==> resolution(outcome) == Err::<
            Seq<char>,
            Seq<char>,
        >("failed to spawn yt-dlp: "@ + e@),
        outcome matches ToolOutcome::Finished { success, stdout, stderr } ==> ({
            let lines = text::lines_from(stdout@, 0);
            &&& !success ==> resolution(outcome) == Err::<Seq<char>, Seq<char>>(
                "yt-dlp failed to resolve a stream URL: "@ + text::trimmed(stderr@),
            )
            &&& success && 0 <= k < lines.len() && !text::is_blank(lines[k]) && (forall|j: int|
                0 <= j < k ==> text::is_blank(#[trigger] lines[j])) ==> {
                &&& json::json_entry(lines[k]) is None ==> resolution(outcome) == Err::<
                    Seq<char>,
                    Seq<char>,
                >("yt-dlp returned no usable metadata"@)
                &&& json::json_entry(lines[k]) matches Some(entry) ==> {
                    &&& stream_url_of(entry) matches Some(url) ==> resolution(outcome) == Ok::<
                        Seq<char>,
                        Seq<char>,
                    >(url)
                    &&& stream_url_of(entry) is None ==> resolution(outcome) == Err::<
                        Seq<char>,
                        Seq<char>,
                    >("yt-dlp did not report a playable stream URL"@)
                }
            }
            &&& success && (forall|j: int|
                0 <= j < lines.len() ==> text::is_blank(#[trigger] lines[j])) ==> resolution(
                outcome,
            ) == Err::<Seq<char>, Seq<char>>("yt-dlp returned no usable metadata"@)
        }),
{
    if let ToolOutcome::Finished { success, stdout, stderr } = outcome {
        let lines = text::lines_from(stdout@, 0);
        text::law_first_solid_line(
            lines,
            if 0 <= k < lines.len() {
                k
            } else {
                0
            },
        );
    }
}

/// ffmpeg's command line ends with what is read, how it is filtered, and
/// what is written: the stream, no video, the chosen filter or else the
/// Balanced one, and 48 kHz stereo samples on the standard output.
pub proof fn law_ffmpeg_reads_filters_and_writes(
    stream_url: Seq<char>,
    eq_filter: Option<Seq<char>>,
    seek_time: Option<Duration>,
)
    ensures
        ({
            let line = ffmpeg_line(stream_url, eq_filter, seek_time);
            let n = line.len() as int;
            &&& n >= 25
            &&& line[n - 12] == "-i"@
            &&& line[n - 11] == stream_url
            &&& line[n - 10] == "-vn"@
            &&& line[n - 9] == "-af"@
            &&& eq_filter matches Some(filter) ==> line[n - 8] == filter
            &&& eq_filter is None ==> line[n - 8] == eq::balanced_filter()
            &&& line[n - 7] == "-f"@
            &&& line[n - 6] == "f32le"@
            &&& line[n - 5] == "-ar"@
            &&& line[n - 4] == "48000"@
            &&& line[n - 3] == "-ac"@
            &&& line[n - 2] == "2"@
            &&& line[n - 1] == "pipe:1"@
        }),
{
}

/// ffmpeg's command line begins with its patience: it reconnects by itself,
/// and it waits longer and buffers more for Hi-Fi.
pub proof fn law_ffmpeg_reconnects(
    stream_url: Seq<char>,
    eq_filter: Option<Seq<char>>,
    seek_time: Option<Duration>,
)
    ensures
        ({
            let line = ffmpeg_line(stream_url, eq_filter, seek_time);
            &&& line[0] == "-hide_banner"@
            &&& line[1] == "-loglevel"@
            &&& line[2] == "error"@
            &&& line[3] == "-reconnect"@
            &&& line[4] == "1"@
            &&& line[5] == "-reconnect_streamed"@
            &&& line[6] == "1"@
            &&& line[7] == "-reconnect_delay_max"@
            &&& line[9] == "-rw_timeout"@
            &&& line[11] == "-thread_queue_size"@
            &&& eq_filter is None ==> {
                &&& line[8] == "5"@
                &&& line[10] == "5000000"@
                &&& line[12] == "4096"@
                &&& line.len() == 25 + (if seek_time is Some {
                    2int
                } else {
                    0
                })
            }
            &&& eq_filter is Some ==> {
                &&& line[8] == "10"@
                &&& line[10] == "15000000"@
                &&& line[12] == "16384"@
                &&& line[13] == "-analyzeduration"@
                &&& line[14] == "10M"@
                &&& line[15] == "-probesize"@
                &&& line[16] == "10M"@
                &&& line[17] == "-fflags"@
                &&& line[18] == "+nobuffer+genpts"@
                &&& line.len() == 31 + (if seek_time is Some {
                    2int
                } else {
                    0
                })
            }
        }),
{
}

/// A position is passed on right before the input, as `-ss` and its seconds;
/// the seconds read back as the position's milliseconds.
pub proof fn law_seek_position_reads_back(
    stream_url: Seq<char>,
    eq_filter: Option<Seq<char>>,
    position: Duration,
)
    ensures
        ({
            let line = ffmpeg_line(stream_url, eq_filter, Some(position));
            let n = line.len() as int;
            let written = line[n - 13];
            let dot = written.len() - 4;
            &&& line[n - 14] == "-ss"@
            &&& dot >= 1
            &&& written[dot] == '.'
            &&& text::digits_value(written.take(dot)) * 1000 + text::digits_value(
                written.skip(dot + 1),
            ) == nearest_millis(position@)
            &&& forall|i: int|
                0 <= i < written.len() && i != dot ==> '0' <= #[trigger] written[i] <= '9'
        }),
{
    let line = ffmpeg_line(stream_url, eq_filter, Some(position));
    let millis = nearest_millis(position@);
    let written = line[line.len() - 13];
    assert(written == seconds_text(millis));
    let whole = text::nat_text(millis / 1000);
    text::lemma_nat_text_reads_back(millis / 1000);
    let dot = written.len() - 4;
    assert(written.take(dot) =~= whole);
    let rest = (millis % 1000) as int;
    let tail = written.skip(dot + 1);
    let a = text::digit_char(rest / 100);
    let b = text::digit_char(rest / 10 % 10);
    let c = text::digit_char(rest % 10);
    assert(tail =~= seq![a, b, c]);
    text::law_digits_are_positional(seq![a, b], c);
    text::law_digits_are_positional(seq![a], b);
    text::law_digits_are_positional(Seq::empty(), a);
    assert(seq![a, b].push(c) =~= tail);
    assert(seq![a].push(b) =~= seq![a, b]);
    assert(Seq::<char>::empty().push(a) =~= seq![a]);
    assert forall|i: int| 0 <= i < written.len() && i != dot implies '0' <= #[trigger] written[i]
        <= '9' by {
        if i < dot {
            assert(text::is_digit(whole[i]));
            assert(written[i] == whole[i]);
        }
    }
}

/// A source that plays a track takes its address and its equalizer, and
/// starts where it was told to.
pub proof fn law_source_plays_its_track(
    source: FfmpegEqSource,
    meta: TrackMeta,
    extra_args: Seq<String>,
    seek_time: Option<Duration>,
)
    ensures
        source.plays(meta, extra_args, seek_time) <==> {
            &&& source.url == meta.url
            &&& source.ytdlp_extra_args@ == extra_args
            &&& source.eq_filter == meta.eq_filter
            &&& source.seek_time == seek_time
        },
{
}

} // verus!
