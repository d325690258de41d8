//! `/playlist_*`: personal playlist commands.

use vstd::prelude::*;

use crate::discord::{Colour, Reply};
use crate::models::PlaylistTrack;
use crate::pagination::{Listing, ListingView};
use crate::playlist;
use crate::playlist::{exists_message, ImportResult, MAX_BULK_ADD};
use crate::text;
use crate::text::{between, int_string, nat_string, push_text};

verus! {

/// Creates a new personal playlist: the answer is visible to its creator
/// only.
pub fn playlist_create(message: String) -> (reply: Reply)
    ensures
        reply.ephemeral,
        reply.content@ == message@,
{
    Reply { content: message, ephemeral: true }
}

/// The answer when there is no playlist of that name.
pub open spec fn missing_text(name: Seq<char>) -> Seq<char> {
    "❌ Playlist '"@ + name + "' not found."@
}

/// The answer when there is no playlist of that name.
pub fn missing_message(name: &str) -> (answer: String)
    ensures
        answer@ == missing_text(name@),
{
    between("❌ Playlist '", name, "' not found.")
}

/// The note about tracks that an import left out.
pub open spec fn truncation_text() -> Seq<char> {
    "\n⚠️ This source has more than "@ + text::nat_text(MAX_BULK_ADD as nat)
        + " tracks; only the first "@ + text::nat_text(MAX_BULK_ADD as nat) + " were added."@
}

/// The answer after an import that added something.
pub open spec fn added_text(name: Seq<char>, result: ImportResult) -> Seq<char> {
    let head = "✅ Added "@ + text::nat_text(result.imported as nat) + (if result.imported == 1 {
        " track to playlist '"@
    } else {
        " tracks to playlist '"@
    }) + name + "'."@;
    if result.truncated {
        head + truncation_text()
    } else {
        head
    }
}

/// Reports an import into a playlist. `finished` is how the source ended,
/// which matters only if nothing was added.
pub fn playlist_add(playlist_name: &str, result: &ImportResult, finished: &Result<(), String>) -> (
    answer: String)
    ensures
        answer@ == (if result.imported == 0 {
            match *finished {
                Err(e) => e@,
                Ok(_) => "❌ No addable tracks were found for that URL."@,
            }
        } else {
            added_text(playlist_name@, *result)
        }),
{
    if result.imported == 0 {
        return match finished {
            Err(e) => e.clone(),
            Ok(_) => "❌ No addable tracks were found for that URL.".to_owned(),
        };
    }
    let mut answer = "✅ Added ".to_owned();
    answer.append(nat_string(result.imported as u64).as_str());
    if result.imported == 1 {
        answer.append(" track to playlist '");
    } else {
        answer.append(" tracks to playlist '");
    }
    answer.append(playlist_name);
    answer.append("'.");
    if result.truncated {
        let mut note = between(
            "\n⚠️ This source has more than ",
            nat_string(MAX_BULK_ADD as u64).as_str(),
            " tracks; only the first ",
        );
        note.append(nat_string(MAX_BULK_ADD as u64).as_str());
        note.append(" were added.");
        answer.append(note.as_str());
    }
    answer
}

/// Checks what `/playlist_play` is asked to play: why it is refused, if it
/// is.
pub fn playlist_play(name: &str, tracks: Option<&Vec<PlaylistTrack>>) -> (refusal: Option<String>)
    ensures
        match refusal {
            Some(r) => (tracks is None || tracks->0@.len() == 0) && r@ == "❌ Playlist '"@ + name@
                + "' not found or is empty."@,
            None => tracks is Some && tracks->0@.len() > 0,
        },
{
    let playable = match tracks {
        Some(list) => list.len() > 0,
        None => false,
    };
    if playable {
        None
    } else {
        Some(between("❌ Playlist '", name, "' not found or is empty."))
    }
}

/// Confirms that a playlist was queued.
pub fn queued_message(count: usize, name: &str) -> (answer: String)
    ensures
        answer@ == "🔄 Queued "@ + text::nat_text(count as nat) + " tracks from playlist '"@ + name@
            + "'."@,
{
    let mut answer = between(
        "🔄 Queued ",
        nat_string(count as u64).as_str(),
        " tracks from playlist '",
    );
    answer.append(name);
    answer.append("'.");
    answer
}

/// A playlist's name, and how many tracks it has.
#[derive(Debug, PartialEq, Eq)]
pub struct Summary {
    pub name: String,
    pub tracks: usize,
}

/// The line for a playlist.
pub open spec fn summary_line(summary: Summary) -> Seq<char> {
    "📁 **"@ + summary.name@ + "** ("@ + text::nat_text(summary.tracks as nat) + " tracks)"@
}

/// The listing of a user's playlists.
pub open spec fn own_listing(user_name: Seq<char>, playlists: Seq<Summary>) -> ListingView {
    ListingView {
        title: user_name + "'s Playlists"@,
        color: Colour::Purple,
        lines: Seq::new(playlists.len(), |i: int| summary_line(playlists[i])),
        footer: "Total "@ + text::nat_text(playlists.len()) + " playlists"@,
        ephemeral: true,
    }
}

/// Lists a user's playlists; `None` if they have none.
pub fn playlist_show_all(user_name: &str, playlists: &Vec<Summary>) -> (listing: Option<Listing>)
    ensures
        match listing {
            Some(l) => playlists@.len() > 0 && l@ == own_listing(user_name@, playlists@),
            None => playlists@.len() == 0,
        },
{
    if playlists.len() == 0 {
        return None;
    }
    let mut lines: Vec<String> = Vec::new();
    let ghost expected = Seq::new(playlists@.len(), |i: int| summary_line(playlists@[i]));
    let mut i: usize = 0;
    assert(text::texts(lines@) =~= expected.take(0));
    while i < playlists.len()
        invariant
            i <= playlists@.len(),
            expected == Seq::new(playlists@.len(), |i: int| summary_line(playlists@[i])),
            text::texts(lines@) == expected.take(i as int),
        decreases playlists@.len() - i,
    {
        let mut line = between("📁 **", playlists[i].name.as_str(), "** (");
        line.append(nat_string(playlists[i].tracks as u64).as_str());
        line.append(" tracks)");
        push_text(&mut lines, line.as_str());
        i += 1;
        assert(text::texts(lines@) =~= expected.take(i as int));
    }
    assert(expected.take(i as int) =~= expected);
    let mut title = user_name.to_owned();
    title.append("'s Playlists");
    Some(
        Listing {
            title,
            color: Colour::Purple,
            lines,
            footer: between("Total ", nat_string(playlists.len() as u64).as_str(), " playlists"),
            ephemeral: true,
        },
    )
}

/// Answers `/playlist_show` when there are no playlists to list.
pub fn no_playlists_message() -> (answer: &'static str)
    ensures
        answer@ == "You have no personal playlists."@,
{
    "You have no personal playlists."
}

/// The line for the track at index `i` of a playlist.
pub open spec fn track_line(track: PlaylistTrack, i: nat) -> Seq<char> {
    "`"@ + text::nat_text(i + 1) + ".` **"@ + track.title@ + "**"@
}

/// A line for every track of a playlist.
pub open spec fn track_lines(tracks: Seq<PlaylistTrack>) -> Seq<Seq<char>> {
    Seq::new(tracks.len(), |i: int| track_line(tracks[i], i as nat))
}

/// Lists a playlist's tracks, one line each.
pub fn contents(title: String, color: Colour, tracks: &Vec<PlaylistTrack>) -> (listing: Listing)
    ensures
        listing@ == (ListingView {
            title: title@,
            color,
            lines: track_lines(tracks@),
            footer: "Total "@ + text::nat_text(tracks@.len()) + " tracks"@,
            ephemeral: true,
        }),
{
    let mut lines: Vec<String> = Vec::new();
    let mut i: usize = 0;
    assert(text::texts(lines@) =~= track_lines(tracks@).take(0));
    while i < tracks.len()
        invariant
            i <= tracks.len(),
            text::texts(lines@) == track_lines(tracks@).take(i as int),
        decreases tracks@.len() - i,
    {
        let mut line = between("`", nat_string((i + 1) as u64).as_str(), ".` **");
        line.append(tracks[i].title.as_str());
        line.append("**");
        push_text(&mut lines, line.as_str());
        i += 1;
        assert(text::texts(lines@) =~= track_lines(tracks@).take(i as int));
    }
    assert(track_lines(tracks@).take(i as int) =~= track_lines(tracks@));
    Listing {
        title,
        color,
        lines,
        footer: between("Total ", nat_string(tracks.len() as u64).as_str(), " tracks"),
        ephemeral: true,
    }
}

/// Lists the tracks of one of the user's playlists, if there is one of that
/// name.
pub fn playlist_show(name: &str, tracks: Option<&Vec<PlaylistTrack>>) -> (listing: Result<
    Listing,
    String,
>)
    ensures
        match (tracks, listing) {
            (Some(list), Ok(l)) => l@ == (ListingView {
                title: "Playlist: "@ + name@,
                color: Colour::Purple,
                lines: track_lines(list@),
                footer: "Total "@ + text::nat_text(list@.len()) + " tracks"@,
                ephemeral: true,
            }),
            (None, Err(e)) => e@ == missing_text(name@),
            _ => false,
        },
{
    match tracks {
        Some(list) => {
            let mut title = "Playlist: ".to_owned();
            title.append(name);
            Ok(contents(title, Colour::Purple, list))
        },
        None => Err(missing_message(name)),
    }
}

/// Answers `/playlist_delete`: whether there was a playlist of that name.
pub fn playlist_delete(name: &str, found: bool) -> (answer: String)
    ensures
        answer@ == (if found {
            "✅ Deleted playlist '"@ + name@ + "'."@
        } else {
            missing_text(name@)
        }),
{
    if found {
        between("✅ Deleted playlist '", name, "'.")
    } else {
        missing_message(name)
    }
}

/// Answers `/playlist_remove_track`: the title of what was removed, if there
/// was a track of that number.
pub fn playlist_remove_track(title: Option<&str>) -> (answer: String)
    ensures
        answer@ == (match title {
            Some(t) => "🗑️ Removed **"@ + t@ + "** from the queue."@,
            None => "❌ Invalid number."@,
        }),
{
    match title {
        Some(t) => between("🗑️ Removed **", t, "** from the queue."),
        None => "❌ Invalid number.".to_owned(),
    }
}

/// Answers `/playlist_move` and `/serverplaylist_move`.
pub fn playlist_move(moved: bool, to_number: i64) -> (answer: String)
    ensures
        answer@ == (if moved {
            "✅ Moved track to position "@ + text::int_text(to_number as int) + "."@
        } else {
            "❌ Invalid number. Check the 'from' and 'to' positions."@
        }),
{
    if moved {
        between("✅ Moved track to position ", int_string(to_number).as_str(), ".")
    } else {
        "❌ Invalid number. Check the 'from' and 'to' positions.".to_owned()
    }
}

/// Checks a renaming of one of the user's playlists: why it is refused, if
/// it is. `found` tells whether there is a playlist of the old name, `taken`
/// whether there is one of the new name.
pub fn playlist_rename(old_name: &str, new_name: &str, found: bool, taken: bool) -> (refusal:
    Option<String>)
    ensures
        match refusal {
            Some(r) => if found {
                taken && r@ == playlist::exists_text(new_name@)
            } else {
                r@ == missing_text(old_name@)
            },
            None => found && !taken,
        },
{
    if !found {
        Some(missing_message(old_name))
    } else if taken {
        Some(exists_message(new_name))
    } else {
        None
    }
}

/// Answers a renaming that was carried out, or that turned out to clash with
/// another playlist.
pub fn rename_message(old_name: &str, new_name: &str, renamed: bool) -> (answer: String)
    ensures
        answer@ == (if renamed {
            "✅ Renamed playlist from '"@ + old_name@ + "' to '"@ + new_name@ + "'."@
        } else {
            playlist::exists_text(new_name@)
        }),
{
    if renamed {
        let mut answer = between("✅ Renamed playlist from '", old_name, "' to '");
        answer.append(new_name);
        answer.append("'.");
        answer
    } else {
        exists_message(new_name)
    }
}

/// The answers name the playlist they are about, and an import says how much
/// it added and whether it left something out.
pub proof fn law_answers_name_the_playlist(name: Seq<char>, result: ImportResult)
    ensures
        missing_text(name) == "❌ Playlist '"@ + name + "' not found."@,
        result.imported == 1 && !result.truncated ==> added_text(name, result) == "✅ Added "@
            + text::nat_text(1) + " track to playlist '"@ + name + "'."@,
        result.imported != 1 && !result.truncated ==> added_text(name, result) == "✅ Added "@
            + text::nat_text(result.imported as nat) + " tracks to playlist '"@ + name + "'."@,
        result.truncated ==> added_text(name, result) == added_text(
            name,
            ImportResult { truncated: false, ..result },
        ) + ("\n⚠️ This source has more than "@ + text::nat_text(1000)
            + " tracks; only the first "@ + text::nat_text(1000) + " were added."@),
{
}

/// Playlists are listed with a line each, in order, with their names and
/// how many tracks they have.
pub proof fn law_playlists_are_listed(user_name: Seq<char>, playlists: Seq<Summary>, i: int)
    requires
        0 <= i < playlists.len(),
    ensures
        ({
            let listing = own_listing(user_name, playlists);
            &&& listing.title == user_name + "'s Playlists"@
            &&& listing.color == Colour::Purple
            &&& listing.ephemeral
            &&& listing.lines.len() == playlists.len()
            &&& listing.lines[i] == "📁 **"@ + playlists[i].name@ + "** ("@ + text::nat_text(
                playlists[i].tracks as nat,
            ) + " tracks)"@
            &&& listing.footer == "Total "@ + text::nat_text(playlists.len()) + " playlists"@
        }),
{
}

/// A playlist's tracks are listed with a line each, in order, counted from
/// one.
pub proof fn law_tracks_are_listed(tracks: Seq<PlaylistTrack>, i: int)
    requires
        0 <= i < tracks.len(),
    ensures
        track_lines(tracks).len() == tracks.len(),
        track_lines(tracks)[i] == "`"@ + text::nat_text((i + 1) as nat) + ".` **"@
            + tracks[i].title@ + "**"@,
{
}

} // verus!
