//! `/serverplaylist_*`: shared, server-wide playlist commands.

use vstd::prelude::*;

use crate::commands::playlist;
use crate::commands::playlist::{contents, missing_message};
use crate::discord::Colour;
use crate::models::{Collaborator, Playlist, PlaylistTrack};
use crate::pagination::{Listing, ListingView};
use crate::playlist::has_permission;
use crate::playlist as core_playlist;
use crate::text;
use crate::text::{between, int_string, nat_string, push_text};

verus! {

/// The answer when there is no shared playlist of that name.
pub open spec fn missing_shared_text(name: Seq<char>) -> Seq<char> {
    "❌ Shared playlist '"@ + name + "' not found."@
}

/// Who invokes a command: their id, their guild role ids, and whether they
/// are a server administrator.
#[derive(Debug, PartialEq, Eq)]
pub struct Member {
    pub user_id: i64,
    pub role_ids: Vec<i64>,
    pub is_admin: bool,
}

/// Checks whether a member may add to a server playlist: why not, if they
/// may not. Everybody may, unless it is locked; then only its owner and
/// collaborators may.
pub fn find_writable(
    name: &str,
    playlist: Option<&Playlist>,
    member: &Member,
    collaborators: &Vec<Collaborator>,
) -> (refusal: Option<String>)
    ensures
        match (playlist, refusal) {
            (None, Some(r)) => r@ == missing_shared_text(name@),
            (None, None) => false,
            (Some(p), Some(r)) => {
                &&& p.locked
                &&& !core_playlist::permits(
                    p.owner_id,
                    member.user_id,
                    member.role_ids@,
                    collaborators@,
                )
                &&& r@
                    == "❌ This playlist is locked. Only the owner or collaborators can modify it."@
            },
            (Some(p), None) => !p.locked || core_playlist::permits(
                p.owner_id,
                member.user_id,
                member.role_ids@,
                collaborators@,
            ),
        },
{
    match playlist {
        None => Some(between("❌ Shared playlist '", name, "' not found.")),
        Some(p) => {
            if p.locked && !has_permission(p, member.user_id, &member.role_ids, collaborators) {
                Some(
                    "❌ This playlist is locked. Only the owner or collaborators can modify it.".to_owned(),
                )
            } else {
                None
            }
        },
    }
}

/// Checks whether a member is a server playlist's owner (or, where that is
/// enough, a server administrator): the answer, if they are not.
pub fn find_owned(name: &str, playlist: Option<&Playlist>, member: &Member, allow_admin: bool) -> (
    refusal: Option<String>)
    ensures
        match (playlist, refusal) {
            (None, Some(r)) => r@ == playlist::missing_text(name@),
            (None, None) => false,
            (Some(p), Some(r)) => {
                &&& p.owner_id != member.user_id
                &&& !(allow_admin && member.is_admin)
                &&& r@ == "❌ This action can only be performed by "@ + (if allow_admin {
                    "the playlist owner or a server administrator"@
                } else {
                    "the playlist owner"@
                }) + "."@
            },
            (Some(p), None) => p.owner_id == member.user_id || (allow_admin && member.is_admin),
        },
{
    match playlist {
        None => Some(missing_message(name)),
        Some(p) => {
            if p.owner_id == member.user_id || (allow_admin && member.is_admin) {
                return None;
            }
            let who = if allow_admin {
                "the playlist owner or a server administrator"
            } else {
                "the playlist owner"
            };
            Some(between("❌ This action can only be performed by ", who, "."))
        },
    }
}

/// Checks whether a member is a server playlist's owner or a collaborator,
/// regardless of whether it is locked: the answer, if they are not.
pub fn find_permitted(
    name: &str,
    playlist: Option<&Playlist>,
    member: &Member,
    collaborators: &Vec<Collaborator>,
) -> (refusal: Option<String>)
    ensures
        match (playlist, refusal) {
            (None, Some(r)) => r@ == playlist::missing_text(name@),
            (None, None) => false,
            (Some(p), Some(r)) => {
                &&& !core_playlist::permits(
                    p.owner_id,
                    member.user_id,
                    member.role_ids@,
                    collaborators@,
                )
                &&& r@
                    == "❌ This action can only be performed by the playlist owner or a collaborator."@
            },
            (Some(p), None) => core_playlist::permits(
                p.owner_id,
                member.user_id,
                member.role_ids@,
                collaborators@,
            ),
        },
{
    match playlist {
        None => Some(missing_message(name)),
        Some(p) => {
            if has_permission(p, member.user_id, &member.role_ids, collaborators) {
                None
            } else {
                Some(
                    "❌ This action can only be performed by the playlist owner or a collaborator.".to_owned(),
                )
            }
        },
    }
}

/// A shared playlist as it is listed.
#[derive(Debug, PartialEq, Eq)]
pub struct SharedSummary {
    pub name: String,
    pub owner_id: i64,
    pub locked: bool,
    pub tracks: usize,
}

/// The line for a shared playlist.
pub open spec fn shared_line(summary: SharedSummary) -> Seq<char> {
    "📁 **"@ + summary.name@ + (if summary.locked {
        "** 🔐\n> Owner: <@"@
    } else {
        "**\n> Owner: <@"@
    }) + text::int_text(summary.owner_id as int) + ">, Tracks: "@ + text::nat_text(
        summary.tracks as nat,
    )
}

/// The listing of a server's playlists.
pub open spec fn shared_listing(guild_name: Seq<char>, playlists: Seq<SharedSummary>) -> ListingView {
    ListingView {
        title: "Shared Playlists in '"@ + guild_name + "'"@,
        color: Colour::Orange,
        lines: Seq::new(playlists.len(), |i: int| shared_line(playlists[i])),
        footer: "Total "@ + text::nat_text(playlists.len()) + " playlists"@,
        ephemeral: true,
    }
}

fn line_for(summary: &SharedSummary) -> (line: String)
    ensures
        line@ == shared_line(*summary),
{
    let mut line = "📁 **".to_owned();
    line.append(summary.name.as_str());
    if summary.locked {
        line.append("** 🔐\n> Owner: <@");
    } else {
        line.append("**\n> Owner: <@");
    }
    line.append(int_string(summary.owner_id).as_str());
    line.append(">, Tracks: ");
    line.append(nat_string(summary.tracks as u64).as_str());
    line
}

/// Lists a server's playlists; `None` if it has none.
pub fn serverplaylist_show_all(guild_name: &str, playlists: &Vec<SharedSummary>) -> (listing:
    Option<Listing>)
    ensures
        match listing {
            Some(l) => playlists@.len() > 0 && l@ == shared_listing(guild_name@, playlists@),
            None => playlists@.len() == 0,
        },
{
    if playlists.len() == 0 {
        return None;
    }
    let mut lines: Vec<String> = Vec::new();
    let ghost expected = Seq::new(playlists@.len(), |i: int| shared_line(playlists@[i]));
    let mut i: usize = 0;
    assert(text::texts(lines@) =~= expected.take(0));
    while i < playlists.len()
        invariant
            i <= playlists@.len(),
            expected == Seq::new(playlists@.len(), |i: int| shared_line(playlists@[i])),
            text::texts(lines@) == expected.take(i as int),
        decreases playlists@.len() - i,
    {
        push_text(&mut lines, line_for(&playlists[i]).as_str());
        i += 1;
        assert(text::texts(lines@) =~= expected.take(i as int));
    }
    assert(expected.take(i as int) =~= expected);
    Some(
        Listing {
            title: between("Shared Playlists in '", guild_name, "'"),
            color: Colour::Orange,
            lines,
            footer: between("Total ", nat_string(playlists.len() as u64).as_str(), " playlists"),
            ephemeral: true,
        },
    )
}

/// Answers `/serverplaylist_show` when there are no playlists to list.
pub fn no_playlists_message() -> (answer: &'static str)
    ensures
        answer@ == "There are no shared playlists on this server yet."@,
{
    "There are no shared playlists on this server yet."
}

/// Lists the tracks of a shared playlist, if there is one of that name.
pub fn serverplaylist_show(name: &str, tracks: Option<&Vec<PlaylistTrack>>) -> (listing: Result<
    Listing,
    String,
>)
    ensures
        match (tracks, listing) {
            (Some(list), Ok(l)) => l@ == (ListingView {
                title: "Server Playlist: "@ + name@,
                color: Colour::Orange,
                lines: playlist::track_lines(list@),
                footer: "Total "@ + text::nat_text(list@.len()) + " tracks"@,
                ephemeral: true,
            }),
            (None, Err(e)) => e@ == missing_shared_text(name@),
            _ => false,
        },
{
    match tracks {
        Some(list) => {
            let mut title = "Server Playlist: ".to_owned();
            title.append(name);
            Ok(contents(title, Colour::Orange, list))
        },
        None => Err(between("❌ Shared playlist '", name, "' not found.")),
    }
}

/// Checks what `/serverplaylist_play` is asked to play: why it is refused,
/// if it is.
pub fn serverplaylist_play(name: &str, tracks: Option<&Vec<PlaylistTrack>>) -> (refusal: Option<
    String,
>)
    ensures
        match refusal {
            Some(r) => (tracks is None || tracks->0@.len() == 0) && r@ == "❌ Server playlist '"@
                + name@ + "' not found or is empty."@,
            None => tracks is Some && tracks->0@.len() > 0,
        },
{
    let playable = match tracks {
        Some(list) => list.len() > 0,
        None => false,
    };
    if playable {
        None
    } else {
        Some(between("❌ Server playlist '", name, "' not found or is empty."))
    }
}

/// Confirms that a shared playlist was queued.
pub fn queued_message(count: usize, name: &str) -> (answer: String)
    ensures
        answer@ == "✅ Queued "@ + text::nat_text(count as nat)
            + " tracks from the server playlist '"@ + name@ + "'."@,
{
    let mut answer = between(
        "✅ Queued ",
        nat_string(count as u64).as_str(),
        " tracks from the server playlist '",
    );
    answer.append(name);
    answer.append("'.");
    answer
}

/// Why a command that only a shared playlist's owner may use is refused, if
/// it is.
pub open spec fn owner_refusal(name: Seq<char>, playlist: Option<&Playlist>, member: Member) -> Option<
    Seq<char>,
> {
    match playlist {
        None => Some(playlist::missing_text(name)),
        Some(p) => if p.owner_id == member.user_id {
            None
        } else {
            Some("❌ This action can only be performed by "@ + "the playlist owner"@ + "."@)
        },
    }
}

/// Checks whether a member may remove tracks from a shared playlist: the
/// answer, if they may not. Its owner and its collaborators may, whether it
/// is locked or not.
pub fn may_remove_track(
    name: &str,
    playlist: Option<&Playlist>,
    member: &Member,
    collaborators: &Vec<Collaborator>,
) -> (refusal: Option<String>)
    ensures
        match (playlist, refusal) {
            (None, Some(r)) => r@ == playlist::missing_text(name@),
            (None, None) => false,
            (Some(p), Some(r)) => {
                &&& !core_playlist::permits(
                    p.owner_id,
                    member.user_id,
                    member.role_ids@,
                    collaborators@,
                )
                &&& r@
                    == "❌ This action can only be performed by the playlist owner or a collaborator."@
            },
            (Some(p), None) => core_playlist::permits(
                p.owner_id,
                member.user_id,
                member.role_ids@,
                collaborators@,
            ),
        },
{
    find_permitted(name, playlist, member, collaborators)
}

/// Answers `/serverplaylist_remove_track`: the title of what was removed, if
/// there was a track of that number.
pub fn serverplaylist_remove_track(title: Option<&str>) -> (answer: String)
    ensures
        answer@ == (match title {
            Some(t) => "🗑️ Removed **"@ + t@ + "**."@,
            None => "❌ Invalid number."@,
        }),
{
    match title {
        Some(t) => between("🗑️ Removed **", t, "**."),
        None => "❌ Invalid number.".to_owned(),
    }
}

/// Checks whether a member may create shared playlists: the answer, if they
/// may not.
pub fn serverplaylist_create(member: &Member) -> (refusal: Option<&'static str>)
    ensures
        match refusal {
            Some(r) => !member.is_admin && r@
                == "❌ This command can only be used by server administrators."@,
            None => member.is_admin,
        },
{
    if member.is_admin {
        None
    } else {
        Some("❌ This command can only be used by server administrators.")
    }
}

/// Checks whether a member may delete a shared playlist: the answer, if they
/// may not. Its owner and the server's administrators may.
pub fn may_delete(name: &str, playlist: Option<&Playlist>, member: &Member) -> (refusal: Option<
    String,
>)
    ensures
        match (playlist, refusal) {
            (None, Some(r)) => r@ == playlist::missing_text(name@),
            (None, None) => false,
            (Some(p), Some(r)) => {
                &&& p.owner_id != member.user_id
                &&& !member.is_admin
                &&& r@ == "❌ This action can only be performed by "@
                    + "the playlist owner or a server administrator"@ + "."@
            },
            (Some(p), None) => p.owner_id == member.user_id || member.is_admin,
        },
{
    find_owned(name, playlist, member, true)
}

/// Confirms that a shared playlist was deleted.
pub fn serverplaylist_delete(name: &str) -> (answer: String)
    ensures
        answer@ == "✅ Deleted playlist '"@ + name@ + "'."@,
{
    between("✅ Deleted playlist '", name, "'.")
}

/// Checks whether a member may rename a shared playlist: the answer, if they
/// may not. Only its owner may.
pub fn may_rename(name: &str, playlist: Option<&Playlist>, member: &Member) -> (refusal: Option<String>)
    ensures
        text::opt_text(refusal) == owner_refusal(name@, playlist, *member),
{
    find_owned(name, playlist, member, false)
}

/// Checks a renaming of a shared playlist by its owner: why it is refused,
/// if it is.
pub fn serverplaylist_rename(new_name: &str, taken: bool) -> (refusal: Option<String>)
    ensures
        match refusal {
            Some(r) => taken && r@ == core_playlist::exists_text(new_name@),
            None => !taken,
        },
{
    if taken {
        Some(core_playlist::exists_message(new_name))
    } else {
        None
    }
}

/// Checks whether a member may rearrange a shared playlist: the answer, if
/// they may not. Only its owner may.
pub fn serverplaylist_move(name: &str, playlist: Option<&Playlist>, member: &Member) -> (refusal:
    Option<String>)
    ensures
        text::opt_text(refusal) == owner_refusal(name@, playlist, *member),
{
    find_owned(name, playlist, member, false)
}

/// Checks whether a member may lock or unlock a shared playlist: the answer,
/// if they may not. Only its owner may.
pub fn may_lock(name: &str, playlist: Option<&Playlist>, member: &Member) -> (refusal: Option<String>)
    ensures
        text::opt_text(refusal) == owner_refusal(name@, playlist, *member),
{
    find_owned(name, playlist, member, false)
}

/// Confirms that a shared playlist was locked or unlocked.
pub fn serverplaylist_lock(name: &str, locked: bool) -> (answer: String)
    ensures
        answer@ == "✅ Playlist '"@ + name@ + (if locked {
            "' is now locked 🔐."@
        } else {
            "' is now unlocked 🔓."@
        }),
{
    if locked {
        between("✅ Playlist '", name, "' is now locked 🔐.")
    } else {
        between("✅ Playlist '", name, "' is now unlocked 🔓.")
    }
}

/// How Discord writes a user.
pub open spec fn mention(user_id: u64) -> Seq<char> {
    "<@"@ + text::nat_text(user_id as nat) + ">"@
}

fn mention_text(user_id: u64) -> (written: String)
    ensures
        written@ == mention(user_id),
{
    between("<@", nat_string(user_id).as_str(), ">")
}

/// Checks whether a member may make a user a collaborator: the answer, if
/// they may not. Only the playlist's owner may.
pub fn may_add_user(name: &str, playlist: Option<&Playlist>, member: &Member) -> (refusal: Option<String>)
    ensures
        text::opt_text(refusal) == owner_refusal(name@, playlist, *member),
{
    find_owned(name, playlist, member, false)
}

/// Answers `/serverplaylist_add_user`.
pub fn serverplaylist_add_user(name: &str, user_id: u64, added: bool) -> (answer: String)
    ensures
        answer@ == (if added {
            "✅ Added "@ + mention(user_id) + " as a collaborator to '"@ + name@ + "'."@
        } else {
            "ℹ️ "@ + mention(user_id) + " is already a collaborator."@
        }),
{
    if added {
        let mut answer = between(
            "✅ Added ",
            mention_text(user_id).as_str(),
            " as a collaborator to '",
        );
        answer.append(name);
        answer.append("'.");
        answer
    } else {
        between("ℹ️ ", mention_text(user_id).as_str(), " is already a collaborator.")
    }
}

/// Checks whether a member may remove a user from the collaborators: the
/// answer, if they may not. Only the playlist's owner may.
pub fn may_remove_user(name: &str, playlist: Option<&Playlist>, member: &Member) -> (refusal: Option<String>)
    ensures
        text::opt_text(refusal) == owner_refusal(name@, playlist, *member),
{
    find_owned(name, playlist, member, false)
}

/// Answers `/serverplaylist_remove_user`.
pub fn serverplaylist_remove_user(name: &str, user_id: u64, removed: bool) -> (answer: String)
    ensures
        answer@ == (if removed {
            "✅ Removed "@ + mention(user_id) + " from collaborators of '"@ + name@ + "'."@
        } else {
            "ℹ️ "@ + mention(user_id) + " is not a collaborator."@
        }),
{
    if removed {
        let mut answer = between(
            "✅ Removed ",
            mention_text(user_id).as_str(),
            " from collaborators of '",
        );
        answer.append(name);
        answer.append("'.");
        answer
    } else {
        between("ℹ️ ", mention_text(user_id).as_str(), " is not a collaborator.")
    }
}

/// Checks whether a member may make a role a collaborator: the answer, if
/// they may not. Only the playlist's owner may.
pub fn may_add_role(name: &str, playlist: Option<&Playlist>, member: &Member) -> (refusal: Option<String>)
    ensures
        text::opt_text(refusal) == owner_refusal(name@, playlist, *member),
{
    find_owned(name, playlist, member, false)
}

/// Answers `/serverplaylist_add_role`.
pub fn serverplaylist_add_role(name: &str, role_name: &str, added: bool) -> (answer: String)
    ensures
        answer@ == (if added {
            "✅ Added the role '"@ + role_name@ + "' as a collaborator to '"@ + name@ + "'."@
        } else {
            "ℹ️ The role '"@ + role_name@ + "' is already a collaborator."@
        }),
{
    if added {
        let mut answer = between("✅ Added the role '", role_name, "' as a collaborator to '");
        answer.append(name);
        answer.append("'.");
        answer
    } else {
        between("ℹ️ The role '", role_name, "' is already a collaborator.")
    }
}

/// Checks whether a member may remove a role from the collaborators: the
/// answer, if they may not. Only the playlist's owner may.
pub fn may_remove_role(name: &str, playlist: Option<&Playlist>, member: &Member) -> (refusal: Option<String>)
    ensures
        text::opt_text(refusal) == owner_refusal(name@, playlist, *member),
{
    find_owned(name, playlist, member, false)
}

/// Answers `/serverplaylist_remove_role`.
pub fn serverplaylist_remove_role(name: &str, role_name: &str, removed: bool) -> (answer: String)
    ensures
        answer@ == (if removed {
            "✅ Removed the role '"@ + role_name@ + "' from collaborators of '"@ + name@ + "'."@
        } else {
            "ℹ️ The role '"@ + role_name@ + "' is not a collaborator."@
        }),
{
    if removed {
        let mut answer = between("✅ Removed the role '", role_name, "' from collaborators of '");
        answer.append(name);
        answer.append("'.");
        answer
    } else {
        between("ℹ️ The role '", role_name, "' is not a collaborator.")
    }
}

/// Checks a transfer of a shared playlist to the user `new_owner_id`: why it
/// is refused, if it is. Only its owner may transfer it, and only to somebody
/// else who is not a bot.
pub fn serverplaylist_transfer(
    name: &str,
    playlist: Option<&Playlist>,
    member: &Member,
    new_owner_id: i64,
    new_owner_is_bot: bool,
) -> (refusal: Option<String>)
    ensures
        match refusal {
            None => {
                &&& !new_owner_is_bot
                &&& playlist is Some
                &&& playlist->0.owner_id == member.user_id
                &&& new_owner_id != member.user_id
            },
            Some(r) => if new_owner_is_bot {
                r@ == "❌ Cannot transfer ownership to a bot."@
            } else if playlist is None {
                r@ == playlist::missing_text(name@)
            } else if playlist->0.owner_id != member.user_id {
                r@ == "❌ This action can only be performed by "@ + "the playlist owner"@ + "."@
            } else {
                new_owner_id == member.user_id && r@
                    == "ℹ️ You cannot transfer ownership to yourself."@
            },
        },
{
    if new_owner_is_bot {
        return Some("❌ Cannot transfer ownership to a bot.".to_owned());
    }
    match find_owned(name, playlist, member, false) {
        Some(refusal) => Some(refusal),
        None => {
            if new_owner_id == member.user_id {
                Some("ℹ️ You cannot transfer ownership to yourself.".to_owned())
            } else {
                None
            }
        },
    }
}

/// Confirms that a shared playlist was transferred.
pub fn transfer_message(name: &str, user_id: u64) -> (answer: String)
    ensures
        answer@ == "✅ Transferred ownership of playlist '"@ + name@ + "' to "@ + mention(user_id)
            + "."@,
{
    let mut answer = between("✅ Transferred ownership of playlist '", name, "' to ");
    answer.append(mention_text(user_id).as_str());
    answer.append(".");
    answer
}

/// A command for owners is open to the owner of a playlist that is there,
/// and to nobody else, administrators and collaborators included.
pub proof fn law_owners_alone_are_admitted(name: Seq<char>, playlist: &Playlist, member: Member)
    ensures
        member.user_id == playlist.owner_id ==> owner_refusal(name, Some(playlist), member) is None,
        member.user_id != playlist.owner_id ==> owner_refusal(name, Some(playlist), member) == Some(
            "❌ This action can only be performed by "@ + "the playlist owner"@ + "."@,
        ),
        owner_refusal(name, None, member) == Some("❌ Playlist '"@ + name + "' not found."@),
{
}

/// Shared playlists are listed with a line each, in order: their names,
/// whether they are locked, whose they are, and how many tracks they have.
pub proof fn law_shared_playlists_are_listed(
    guild_name: Seq<char>,
    playlists: Seq<SharedSummary>,
    i: int,
)
    requires
        0 <= i < playlists.len(),
    ensures
        ({
            let listing = shared_listing(guild_name, playlists);
            let summary = playlists[i];
            &&& listing.title == "Shared Playlists in '"@ + guild_name + "'"@
            &&& listing.color == Colour::Orange
            &&& listing.ephemeral
            &&& listing.lines.len() == playlists.len()
            &&& listing.footer == "Total "@ + text::nat_text(playlists.len()) + " playlists"@
            &&& summary.locked ==> listing.lines[i] == "📁 **"@ + summary.name@
                + "** 🔐\n> Owner: <@"@ + text::int_text(summary.owner_id as int) + ">, Tracks: "@
                + text::nat_text(summary.tracks as nat)
            &&& !summary.locked ==> listing.lines[i] == "📁 **"@ + summary.name@
                + "**\n> Owner: <@"@ + text::int_text(summary.owner_id as int) + ">, Tracks: "@
                + text::nat_text(summary.tracks as nat)
        }),
{
}

/// The answers name the playlist and the user they are about.
pub proof fn law_answers_name_whom_they_are_about(name: Seq<char>, user_id: u64)
    ensures
        missing_shared_text(name) == "❌ Shared playlist '"@ + name + "' not found."@,
        mention(user_id) == "<@"@ + text::nat_text(user_id as nat) + ">"@,
{
}

} // verus!
