//! What yt-dlp is asked, and what its JSON output says: search results and
//! playlist streaming.

use vstd::prelude::*;

use crate::json;
use crate::json::{parse_entry, EntryView, JsonEntry};
use crate::text;
use crate::text::{blank, chars_of, contains_text, lines, nat_string, push_text, starts_with, trim};

verus! {

/// Upper bound, in seconds, on a single metadata lookup, so a network stall
/// can't block a command handler forever.
pub const YTDLP_TIMEOUT_SECS: u64 = 20;

/// Upper bound, in seconds, on a single line read from a track stream, so a
/// stalled network fetch mid-playlist can't block an import forever.
pub const NEXT_LINE_TIMEOUT_SECS: u64 = 15;

/// A single track's metadata, as needed by search results and playlists.
#[derive(Debug, PartialEq, Eq)]
pub struct TrackInfo {
    pub title: String,
    pub uploader: Option<String>,
    pub duration: i64,
    pub webpage_url: String,
    pub thumbnail: Option<String>,
}

impl Clone for TrackInfo {
    fn clone(&self) -> (copy: Self)
        ensures
            copy == *self,
    {
        TrackInfo {
            title: self.title.clone(),
            uploader: self.uploader.clone(),
            duration: self.duration,
            webpage_url: self.webpage_url.clone(),
            thumbnail: self.thumbnail.clone(),
        }
    }
}

/// `TrackInfo`, over characters.
pub struct TrackInfoView {
    pub title: Seq<char>,
    pub uploader: Option<Seq<char>>,
    pub duration: i64,
    pub webpage_url: Seq<char>,
    pub thumbnail: Option<Seq<char>>,
}

impl View for TrackInfo {
    type V = TrackInfoView;

    open spec fn view(&self) -> TrackInfoView {
        TrackInfoView {
            title: self.title@,
            uploader: text::opt_text(self.uploader),
            duration: self.duration,
            webpage_url: self.webpage_url@,
            thumbnail: text::opt_text(self.thumbnail),
        }
    }
}

/// The tracks of a list, over characters.
pub open spec fn infos(list: Seq<TrackInfo>) -> Seq<TrackInfoView> {
    list.map_values(|t: TrackInfo| t@)
}

/// The entries of a list, over characters.
pub open spec fn entries(list: Seq<JsonEntry>) -> Seq<EntryView> {
    list.map_values(|e: JsonEntry| e@)
}

/// Where a track is to be found: its web page, or else the video of its id.
pub open spec fn page_of(entry: EntryView) -> Option<Seq<char>> {
    match json::text_under(entry.object, "webpage_url"@) {
        Some(url) => Some(url),
        None => match json::text_under(entry.object, "id"@) {
            Some(id) => Some("https://www.youtube.com/watch?v="@ + id),
            None => None,
        },
    }
}

/// The track that an entry describes, if it has a title and an address.
pub open spec fn track_of(entry: EntryView) -> Option<TrackInfoView> {
    match (json::text_under(entry.object, "title"@), page_of(entry)) {
        (Some(title), Some(webpage_url)) => Some(
            TrackInfoView {
                title,
                uploader: json::text_under(entry.object, "uploader"@),
                duration: match json::integer_under(entry.object, "duration"@) {
                    Some(secs) => secs,
                    None => 0,
                },
                webpage_url,
                thumbnail: json::text_under(entry.object, "thumbnail"@),
            },
        ),
        _ => None,
    }
}

/// Whether an entry is one of YouTube's auto-generated "Mix"/Radio results
/// (`RD`-prefixed ids).
pub open spec fn is_mix_entry(entry: EntryView) -> bool {
    match json::text_under(entry.object, "id"@) {
        Some(id) => text::has_prefix(id, "RD"@),
        None => false,
    }
}

/// The track that an entry contributes, unless it is a Mix.
pub open spec fn usable_track(entry: EntryView) -> Option<TrackInfoView> {
    if is_mix_entry(entry) {
        None
    } else {
        track_of(entry)
    }
}

/// The tracks that entries contribute, in order.
pub open spec fn usable_tracks(list: Seq<EntryView>) -> Seq<TrackInfoView>
    decreases list.len(),
{
    if list.len() == 0 {
        Seq::empty()
    } else {
        let init = usable_tracks(list.drop_last());
        match usable_track(list.last()) {
            Some(track) => init.push(track),
            None => init,
        }
    }
}

/// What a line of output reads as, unless it is blank.
pub open spec fn line_entry(line: Seq<char>) -> Option<EntryView> {
    if text::is_blank(line) {
        None
    } else {
        json::json_entry(line)
    }
}

/// What the lines of output read as, without the unreadable ones.
pub open spec fn line_entries(list: Seq<Seq<char>>) -> Seq<EntryView>
    decreases list.len(),
{
    if list.len() == 0 {
        Seq::empty()
    } else {
        let init = line_entries(list.drop_last());
        match line_entry(list.last()) {
            Some(entry) => init.push(entry),
            None => init,
        }
    }
}

/// Reads a track's metadata out of an entry.
pub fn entry_to_track_info(entry: &JsonEntry) -> (track: Option<TrackInfo>)
    ensures
        track_of(entry@) == (match track {
            Some(t) => Some(t@),
            None => None,
        }),
{
    let title = match entry.object.text("title") {
        Some(title) => title,
        None => return None,
    };
    let webpage_url = match entry.object.text("webpage_url") {
        Some(url) => url,
        None => match entry.object.text("id") {
            Some(id) => {
                let mut url = "https://www.youtube.com/watch?v=".to_owned();
                url.append(id.as_str());
                url
            },
            None => return None,
        },
    };
    Some(
        TrackInfo {
            title,
            uploader: entry.object.text("uploader"),
            duration: match entry.object.integer("duration") {
                Some(secs) => secs,
                None => 0,
            },
            webpage_url,
            thumbnail: entry.object.text("thumbnail"),
        },
    )
}

/// Filters out YouTube's auto-generated "Mix"/Radio results.
pub fn is_mix(entry: &JsonEntry) -> (yes: bool)
    ensures
        yes == is_mix_entry(entry@),
{
    match entry.object.text("id") {
        Some(id) => starts_with(id.as_str(), "RD"),
        None => false,
    }
}

/// The tracks that entries contribute, in order.
pub fn tracks_of(list: &Vec<JsonEntry>) -> (tracks: Vec<TrackInfo>)
    ensures
        infos(tracks@) == usable_tracks(entries(list@)),
        tracks@.len() == listed_before(entries(list@), list@.len() as int),
        forall|j: int|
            0 <= j < list@.len() && is_listed(#[trigger] list@[j]@) ==> describes(
                list@[j]@,
                tracks@[listed_before(entries(list@), j) as int]@,
            ),
{
    let mut tracks: Vec<TrackInfo> = Vec::new();
    let ghost all = entries(list@);
    let mut i: usize = 0;
    assert(infos(tracks@) =~= usable_tracks(all.take(0)));
    while i < list.len()
        invariant
            i <= list@.len(),
            all == entries(list@),
            infos(tracks@) == usable_tracks(all.take(i as int)),
        decreases list@.len() - i,
    {
        let ghost before = infos(tracks@);
        assert(all.take(i + 1).drop_last() =~= all.take(i as int));
        assert(all.take(i + 1).last() == list@[i as int]@);
        if !is_mix(&list[i]) {
            if let Some(track) = entry_to_track_info(&list[i]) {
                tracks.push(track);
                assert(infos(tracks@) =~= before.push(track@));
            }
        }
        i += 1;
    }
    assert(all.take(i as int) =~= all);
    proof {
        law_every_listed_entry_is_found(all, 0);
        assert(infos(tracks@).len() == tracks@.len());
        assert forall|j: int| 0 <= j < list@.len() && is_listed(#[trigger] list@[j]@) implies describes(
            list@[j]@,
            tracks@[listed_before(all, j) as int]@,
        ) by {
            assert(all[j] == list@[j]@);
            law_every_listed_entry_is_found(all, j);
            let at = listed_before(all, j) as int;
            assert(infos(tracks@)[at] == tracks@[at]@);
        }
    }
    tracks
}

/// The search term that asks for up to `max_results` tracks.
pub open spec fn search_term(query: Seq<char>, max_results: nat) -> Seq<char> {
    "ytsearch"@ + text::nat_text(max_results) + ":"@ + query
}

/// The arguments that search YouTube for `query`.
pub fn search_args(query: &str, max_results: u32) -> (args: Vec<String>)
    ensures
        text::texts(args@) == seq![
            "--no-warnings"@,
            "-j"@,
            "--flat-playlist"@,
            search_term(query@, max_results as nat),
        ],
{
    let mut term = "ytsearch".to_owned();
    term.append(nat_string(max_results as u64).as_str());
    term.append(":");
    term.append(query);
    let mut args: Vec<String> = Vec::new();
    assert(text::texts(args@) =~= Seq::<Seq<char>>::empty());
    push_text(&mut args, "--no-warnings");
    push_text(&mut args, "-j");
    push_text(&mut args, "--flat-playlist");
    push_text(&mut args, term.as_str());
    args
}

/// How a bulk run of yt-dlp ended.
#[derive(Debug, PartialEq, Eq)]
pub enum RunOutcome {
    /// It took longer than `YTDLP_TIMEOUT_SECS`.
    TimedOut,
    /// There is no such program.
    NotInstalled,
    /// It could not be run for another reason.
    Failed(String),
    /// It exited.
    Finished { success: bool, stdout: String, stderr: String },
}

/// Why a bulk run has no output to read, if it has none.
pub open spec fn run_failure(outcome: RunOutcome) -> Option<Seq<char>> {
    match outcome {
        RunOutcome::TimedOut => Some(
            "yt-dlp timed out after "@ + text::nat_text(YTDLP_TIMEOUT_SECS as nat) + "s."@,
        ),
        RunOutcome::NotInstalled => Some("yt-dlp is not installed or not on PATH."@),
        RunOutcome::Failed(e) => Some(e@),
        RunOutcome::Finished { success, stdout, stderr } => if success {
            None
        } else {
            Some("yt-dlp failed: "@ + text::trimmed(stderr@))
        },
    }
}

/// The entries that a bulk run printed.
pub fn run_yt_dlp(outcome: &RunOutcome) -> (list: Result<Vec<JsonEntry>, String>)
    ensures
        match list {
            Ok(v) => {
                &&& run_failure(*outcome) is None
                &&& entries(v@) == line_entries(text::lines_from(outcome->stdout@, 0))
            },
            Err(e) => run_failure(*outcome) == Some(e@),
        },
{
    match outcome {
        RunOutcome::TimedOut => {
            let mut message = "yt-dlp timed out after ".to_owned();
            message.append(nat_string(YTDLP_TIMEOUT_SECS).as_str());
            message.append("s.");
            Err(message)
        },
        RunOutcome::NotInstalled => Err("yt-dlp is not installed or not on PATH.".to_owned()),
        RunOutcome::Failed(e) => Err(e.clone()),
        RunOutcome::Finished { success, stdout, stderr } => {
            if !*success {
                let mut message = "yt-dlp failed: ".to_owned();
                message.append(trim(stderr.as_str()).as_str());
                return Err(message);
            }
            Ok(read_entries(stdout.as_str()))
        },
    }
}

/// The entries on the lines of `stdout`, without the unreadable ones.
fn read_entries(stdout: &str) -> (list: Vec<JsonEntry>)
    ensures
        entries(list@) == line_entries(text::lines_from(stdout@, 0)),
{
    let all = lines(stdout);
    let ghost texts_all = text::texts(all@);
    let mut list: Vec<JsonEntry> = Vec::new();
    let mut i: usize = 0;
    assert(entries(list@) =~= line_entries(texts_all.take(0)));
    while i < all.len()
        invariant
            i <= all@.len(),
            texts_all == text::texts(all@),
            entries(list@) == line_entries(texts_all.take(i as int)),
        decreases all@.len() - i,
    {
        let ghost before = entries(list@);
        assert(texts_all.take(i + 1).drop_last() =~= texts_all.take(i as int));
        assert(texts_all.take(i + 1).last() == all@[i as int]@);
        if !blank(all[i].as_str()) {
            if let Some(entry) = parse_entry(all[i].as_str()) {
                list.push(entry);
                assert(entries(list@) =~= before.push(entry@));
            }
        }
        i += 1;
    }
    assert(texts_all.take(i as int) =~= texts_all);
    list
}

/// The first `max_results` of the tracks.
pub open spec fn up_to(tracks: Seq<TrackInfoView>, max_results: nat) -> Seq<TrackInfoView> {
    if tracks.len() <= max_results {
        tracks
    } else {
        tracks.take(max_results as int)
    }
}

/// The tracks that a search found, up to `max_results` of them: the readable
/// entries with a title and an address, without Mix results.
pub fn search(outcome: &RunOutcome, max_results: u32) -> (tracks: Result<Vec<TrackInfo>, String>)
    ensures
        match tracks {
            Ok(v) => {
                &&& run_failure(*outcome) is None
                &&& infos(v@) == up_to(
                    usable_tracks(line_entries(text::lines_from(outcome->stdout@, 0))),
                    max_results as nat,
                )
                &&& v@.len() <= max_results
            },
            Err(e) => run_failure(*outcome) == Some(e@),
        },
{
    match run_yt_dlp(outcome) {
        Ok(list) => {
            let mut tracks = tracks_of(&list);
            let ghost all = tracks@;
            tracks.truncate(max_results as usize);
            assert(infos(tracks@) =~= up_to(infos(all), max_results as nat));
            assert(infos(tracks@).len() == tracks@.len());
            Ok(tracks)
        },
        Err(e) => Err(e),
    }
}

/// A run of yt-dlp that streams a URL (or, via its default search, a plain
/// search term) to tracks one at a time, instead of buffering the whole
/// result set before anything is returned: a single video yields one track,
/// a playlist URL yields all of its (non-Mix) entries.
#[derive(Debug, PartialEq, Eq)]
pub struct TrackStream {
    /// yt-dlp's command line.
    pub args: Vec<String>,
}

impl TrackStream {
    /// Prepares a run of yt-dlp against `query_or_url`, or says why it is
    /// refused: auto-generated 'Mix' playlists have no end.
    pub fn spawn(query_or_url: &str) -> (stream: Result<TrackStream, String>)
        ensures
            match stream {
                Ok(s) => {
                    &&& !text::has_text(query_or_url@, "list=RD"@)
                    &&& text::texts(s.args@) == seq![
                        "--no-warnings"@,
                        "-j"@,
                        "--flat-playlist"@,
                        "--ignore-errors"@,
                        "--default-search"@,
                        "ytsearch"@,
                        query_or_url@,
                    ]
                },
                Err(e) => {
                    &&& text::has_text(query_or_url@, "list=RD"@)
                    &&& e@ == "❌ YouTube's auto-generated 'Mix' playlists cannot be added."@
                },
            },
    {
        let chars = chars_of(query_or_url);
        let mark = chars_of("list=RD");
        if contains_text(&chars, &mark) {
            return Err("❌ YouTube's auto-generated 'Mix' playlists cannot be added.".to_owned());
        }
        let mut args: Vec<String> = Vec::new();
        assert(text::texts(args@) =~= Seq::<Seq<char>>::empty());
        push_text(&mut args, "--no-warnings");
        push_text(&mut args, "-j");
        push_text(&mut args, "--flat-playlist");
        push_text(&mut args, "--ignore-errors");
        push_text(&mut args, "--default-search");
        push_text(&mut args, "ytsearch");
        push_text(&mut args, query_or_url);
        Ok(TrackStream { args })
    }

    /// Takes the next line off the stream, skipping blank lines, unparsable
    /// JSON, and filtered-out (Mix) entries; no line at all is its end.
    pub fn next_track(&self, line: Option<&str>) -> (step: StreamStep)
        ensures
            match step {
                StreamStep::Ended => line is None,
                StreamStep::Skipped => line is Some && contributes(line_entry(line->0@)) is None,
                StreamStep::Track(track) => line is Some && contributes(line_entry(line->0@)) == Some(
                    track@,
                ),
            },
    {
        match line {
            Some(text) => {
                if blank(text) {
                    return StreamStep::Skipped;
                }
                let entry = parse_entry(text);
                step_for_entry(entry.as_ref())
            },
            None => StreamStep::Ended,
        }
    }

    /// Whether the stream ended well, once yt-dlp has exited. Intended for
    /// callers that got no tracks and want to know why.
    pub fn finish(self, success: bool) -> (end: Result<(), String>)
        ensures
            success ==> end == Ok::<(), String>(()),
            !success ==> (end matches Err(e) && e@
                == "yt-dlp exited with an error; some tracks may be missing."@),
    {
        if success {
            Ok(())
        } else {
            Err("yt-dlp exited with an error; some tracks may be missing.".to_owned())
        }
    }
}

/// What a read from a track stream leads to.
#[derive(Debug, PartialEq, Eq)]
pub enum StreamStep {
    /// yt-dlp closed its output: there are no more tracks.
    Ended,
    /// Nothing usable on this line; read the next one.
    Skipped,
    /// The next track.
    Track(TrackInfo),
}

/// What an entry, or the lack of a readable one, leads to.
pub open spec fn contributes(entry: Option<EntryView>) -> Option<TrackInfoView> {
    match entry {
        Some(e) => usable_track(e),
        None => None,
    }
}

/// What an entry, or the lack of a readable one, leads to.
pub fn step_for_entry(entry: Option<&JsonEntry>) -> (step: StreamStep)
    ensures
        match step {
            StreamStep::Ended => false,
            StreamStep::Skipped => contributes(
                match entry {
                    Some(e) => Some(e@),
                    None => None,
                },
            ) is None,
            StreamStep::Track(track) => contributes(
                match entry {
                    Some(e) => Some(e@),
                    None => None,
                },
            ) == Some(track@),
        },
{
    match entry {
        Some(e) => {
            if is_mix(e) {
                return StreamStep::Skipped;
            }
            match entry_to_track_info(e) {
                Some(track) => StreamStep::Track(track),
                None => StreamStep::Skipped,
            }
        },
        None => StreamStep::Skipped,
    }
}

/// What a stream reports when yt-dlp cannot be started, because there is no
/// such program or for the given reason.
pub fn spawn_error(not_installed: bool, reason: &str) -> (message: String)
    ensures
        message@ == (if not_installed {
            "yt-dlp is not installed or not on PATH."@
        } else {
            reason@
        }),
{
    if not_installed {
        "yt-dlp is not installed or not on PATH.".to_owned()
    } else {
        reason.to_owned()
    }
}

/// What a stream reports when no line arrives in time.
pub fn next_line_timeout() -> (message: String)
    ensures
        message@ == "yt-dlp timed out after "@ + text::nat_text(NEXT_LINE_TIMEOUT_SECS as nat)
            + "s waiting for the next track."@,
{
    let mut message = "yt-dlp timed out after ".to_owned();
    message.append(nat_string(NEXT_LINE_TIMEOUT_SECS).as_str());
    message.append("s waiting for the next track.");
    message
}

/// The tracks that a stream hands out over its lines.
pub open spec fn streamed(list: Seq<Seq<char>>) -> Seq<TrackInfoView>
    decreases list.len(),
{
    if list.len() == 0 {
        Seq::empty()
    } else {
        let init = streamed(list.drop_last());
        match contributes(line_entry(list.last())) {
            Some(track) => init.push(track),
            None => init,
        }
    }
}

/// Streaming a source line by line hands out exactly the tracks that reading
/// its whole output at once finds.
pub proof fn law_streaming_finds_the_same_tracks(list: Seq<Seq<char>>)
    ensures
        streamed(list) == usable_tracks(line_entries(list)),
    decreases list.len(),
{
    if list.len() > 0 {
        law_streaming_finds_the_same_tracks(list.drop_last());
        if let Some(entry) = line_entry(list.last()) {
            let init = line_entries(list.drop_last());
            assert(init.push(entry).drop_last() =~= init);
        }
    }
}

/// No track of a search or of a stream comes from a Mix entry, and each
/// comes from an entry of the output.
pub proof fn law_no_mix_among_tracks(list: Seq<EntryView>, i: int)
    requires
        0 <= i < usable_tracks(list).len(),
    ensures
        exists|j: int|
            0 <= j < list.len() && !is_mix_entry(#[trigger] list[j]) && track_of(list[j]) == Some(
                usable_tracks(list)[i],
            ),
    decreases list.len(),
{
    let init = list.drop_last();
    if i < usable_tracks(init).len() {
        law_no_mix_among_tracks(init, i);
        let j = choose|j: int|
            0 <= j < init.len() && !is_mix_entry(#[trigger] init[j]) && track_of(init[j]) == Some(
                usable_tracks(init)[i],
            );
        assert(list[j] == init[j]);
    } else {
        assert(list[list.len() - 1] == list.last());
    }
}

/// Whether an entry is of use, by its fields: its id does not begin with
/// `RD`, and it has a title and either a web page or an id.
pub open spec fn is_listed(entry: EntryView) -> bool {
    let id = json::text_under(entry.object, "id"@);
    &&& !(id matches Some(i) && i.len() >= 2 && i[0] == 'R' && i[1] == 'D')
    &&& json::text_under(entry.object, "title"@) is Some
    &&& json::text_under(entry.object, "webpage_url"@) is Some || id is Some
}

/// How many of the first `j` entries are of use.
pub open spec fn listed_before(list: Seq<EntryView>, j: int) -> nat
    decreases j,
{
    if j <= 0 {
        0
    } else if is_listed(list[j - 1]) {
        listed_before(list, j - 1) + 1
    } else {
        listed_before(list, j - 1)
    }
}

/// Whether a track is what an entry's fields say.
pub open spec fn describes(entry: EntryView, track: TrackInfoView) -> bool {
    &&& json::text_under(entry.object, "title"@) == Some(track.title)
    &&& track.uploader == json::text_under(entry.object, "uploader"@)
    &&& track.thumbnail == json::text_under(entry.object, "thumbnail"@)
    &&& match json::integer_under(entry.object, "duration"@) {
        Some(secs) => track.duration == secs,
        None => track.duration == 0,
    }
    &&& match json::text_under(entry.object, "webpage_url"@) {
        Some(page) => track.webpage_url == page,
        None => json::text_under(entry.object, "id"@) matches Some(id) && track.webpage_url
            == "https://www.youtube.com/watch?v="@ + id,
    }
}

/// A Mix is told by an id that begins with `RD`, and by nothing else.
pub proof fn law_mix_is_told_by_its_id(entry: EntryView)
    ensures
        is_mix_entry(entry) <==> (json::text_under(entry.object, "id"@) matches Some(id) && id.len()
            >= 2 && id[0] == 'R' && id[1] == 'D'),
{
    reveal_strlit("RD");
    if let Some(id) = json::text_under(entry.object, "id"@) {
        if id.len() >= 2 {
            assert(id.subrange(0, 2)[0] == id[0]);
            assert(id.subrange(0, 2)[1] == id[1]);
            if id[0] == 'R' && id[1] == 'D' {
                assert(id.subrange(0, 2) =~= "RD"@);
            }
        }
    }
}

/// An entry with a title and an address is a track, whatever else it says or
/// leaves out; one without either is none.
pub proof fn law_entry_is_read_by_its_fields(entry: EntryView)
    ensures
        track_of(entry) matches Some(track) ==> describes(entry, track),
        track_of(entry) is Some <==> json::text_under(entry.object, "title"@) is Some && (
        json::text_under(entry.object, "webpage_url"@) is Some || json::text_under(
            entry.object,
            "id"@,
        ) is Some),
        usable_track(entry) is Some <==> is_listed(entry),
        is_listed(entry) ==> usable_track(entry) == track_of(entry),
{
    law_mix_is_told_by_its_id(entry);
}

/// Every entry of use is found, in order: the track at the index that counts
/// the entries of use before it is the one that the entry describes. There
/// are no other tracks.
pub proof fn law_every_listed_entry_is_found(list: Seq<EntryView>, j: int)
    requires
        0 <= j <= list.len(),
    ensures
        usable_tracks(list).len() == listed_before(list, list.len() as int),
        j < list.len() && is_listed(list[j]) ==> {
            let at = listed_before(list, j) as int;
            0 <= at < usable_tracks(list).len() && describes(list[j], usable_tracks(list)[at])
        },
    decreases list.len(),
{
    if list.len() > 0 {
        let init = list.drop_last();
        law_entry_is_read_by_its_fields(list.last());
        lemma_listed_before(list, list.len() - 1);
        law_every_listed_entry_is_found(
            init,
            if j < init.len() {
                j
            } else {
                init.len() as int
            },
        );
        if j < init.len() {
            assert(init[j] == list[j]);
            lemma_listed_before(list, j);
        }
    }
}

/// The last entry does not matter for those before it.
proof fn lemma_listed_before(list: Seq<EntryView>, j: int)
    requires
        0 <= j < list.len(),
    ensures
        listed_before(list.drop_last(), j) == listed_before(list, j),
    decreases j,
{
    if j > 0 {
        lemma_listed_before(list, j - 1);
        assert(list.drop_last()[j - 1] == list[j - 1]);
    }
}

/// How many of the first `j` lines are readable.
pub open spec fn readable_before(list: Seq<Seq<char>>, j: int) -> nat
    decreases j,
{
    if j <= 0 {
        0
    } else if !text::is_blank(list[j - 1]) && json::json_entry(list[j - 1]) is Some {
        readable_before(list, j - 1) + 1
    } else {
        readable_before(list, j - 1)
    }
}

proof fn lemma_readable_before(list: Seq<Seq<char>>, j: int)
    requires
        0 <= j < list.len(),
    ensures
        readable_before(list.drop_last(), j) == readable_before(list, j),
    decreases j,
{
    if j > 0 {
        lemma_readable_before(list, j - 1);
        assert(list.drop_last()[j - 1] == list[j - 1]);
    }
}

/// Every line of output that is not blank and is JSON is read, in order, and
/// nothing else is.
pub proof fn law_every_readable_line_is_read(list: Seq<Seq<char>>, j: int)
    requires
        0 <= j <= list.len(),
    ensures
        line_entries(list).len() == readable_before(list, list.len() as int),
        j < list.len() && !text::is_blank(list[j]) && json::json_entry(list[j]) is Some ==> {
            let at = readable_before(list, j) as int;
            0 <= at < line_entries(list).len() && Some(line_entries(list)[at]) == json::json_entry(
                list[j],
            )
        },
    decreases list.len(),
{
    if list.len() > 0 {
        let init = list.drop_last();
        lemma_readable_before(list, list.len() - 1);
        law_every_readable_line_is_read(
            init,
            if j < init.len() {
                j
            } else {
                init.len() as int
            },
        );
        if j < init.len() {
            assert(init[j] == list[j]);
            lemma_readable_before(list, j);
        }
    }
}

/// A line of a stream hands out a track exactly if it is not blank and reads
/// as an entry of use, and then the track that the entry describes.
pub proof fn law_stream_line_hands_out_its_track(line: Seq<char>)
    ensures
        contributes(line_entry(line)) is Some <==> !text::is_blank(line) && (json::json_entry(
            line,
        ) matches Some(entry) && is_listed(entry)),
        contributes(line_entry(line)) matches Some(track) ==> describes(
            json::json_entry(line)->0,
            track,
        ),
{
    if let Some(entry) = json::json_entry(line) {
        law_entry_is_read_by_its_fields(entry);
    }
}

/// A search asks for, and returns, no more than it was asked for: the first
/// ones that were found, and all of them if they are few enough.
pub proof fn law_search_returns_the_first_results(
    tracks: Seq<TrackInfoView>,
    max_results: nat,
    i: int,
)
    ensures
        up_to(tracks, max_results).len() <= max_results,
        up_to(tracks, max_results).len() <= tracks.len(),
        up_to(tracks, max_results).len() == max_results || up_to(tracks, max_results).len()
            == tracks.len(),
        0 <= i < up_to(tracks, max_results).len() ==> up_to(tracks, max_results)[i] == tracks[i],
{
}

/// The search term names the number of results, then the query as it was
/// typed.
pub proof fn law_search_term_holds_the_query(query: Seq<char>, max_results: nat)
    ensures
        ({
            let term = search_term(query, max_results);
            let number = text::nat_text(max_results);
            &&& term.len() == 9int + number.len() + query.len()
            &&& term.take(8) == "ytsearch"@
            &&& term.subrange(8, 8int + number.len()) == number
            &&& term[8int + number.len()] == ':'
            &&& term.skip(9int + number.len()) == query
        }),
{
    reveal_strlit("ytsearch");
    reveal_strlit(":");
    let term = search_term(query, max_results);
    let number = text::nat_text(max_results);
    assert(term.take(8) =~= "ytsearch"@);
    assert(term.subrange(8, 8int + number.len()) =~= number);
    assert(term.skip(9int + number.len()) =~= query);
}

/// A run is read exactly if yt-dlp exited well; otherwise the reason is
/// given: that it took too long, that it is not there, what the system said,
/// or what it complained of itself.
pub proof fn law_failed_runs_say_why(outcome: RunOutcome)
    ensures
        run_failure(outcome) is None <==> (outcome matches RunOutcome::Finished {
            success,
            stdout,
            stderr,
        } && success),
        outcome is TimedOut ==> run_failure(outcome) == Some(
            "yt-dlp timed out after "@ + text::nat_text(20) + "s."@,
        ),
        outcome is NotInstalled ==> run_failure(outcome) == Some(
            "yt-dlp is not installed or not on PATH."@,
        ),
        outcome matches RunOutcome::Failed(e) ==> run_failure(outcome) == Some(e@),
        outcome matches RunOutcome::Finished { success, stdout, stderr } ==> (!success
            ==> run_failure(outcome) == Some("yt-dlp failed: "@ + text::trimmed(stderr@))),
{
}

/// A list of tracks is seen track by track, in order, with everything that
/// is known of each; and so is a list of entries.
pub proof fn law_tracks_are_seen_as_they_are(
    list: Seq<TrackInfo>,
    read: Seq<JsonEntry>,
    i: int,
)
    ensures
        infos(list).len() == list.len(),
        entries(read).len() == read.len(),
        0 <= i < list.len() ==> {
            let seen = infos(list)[i];
            &&& seen.title == list[i].title@
            &&& seen.duration == list[i].duration
            &&& seen.webpage_url == list[i].webpage_url@
            &&& seen.uploader is Some == list[i].uploader is Some
            &&& list[i].uploader matches Some(u) ==> seen.uploader == Some(u@)
            &&& seen.thumbnail is Some == list[i].thumbnail is Some
            &&& list[i].thumbnail matches Some(t) ==> seen.thumbnail == Some(t@)
        },
        0 <= i < read.len() ==> entries(read)[i].object == read[i].object@,
        0 <= i < read.len() ==> entries(read)[i].formats is Some == read[i].formats is Some,
{
}

} // verus!
