//! Playlists: permissions, the order of their tracks, and importing a stream
//! of tracks into one.

use vstd::prelude::*;

use crate::models::{Collaborator, Playlist, PlaylistTrack};
use crate::text;
use crate::ytdlp;
use crate::ytdlp::{TrackInfo, TrackInfoView};

verus! {

/// Ceiling on how many tracks a single import may add, enforced while
/// streaming rather than by resolving the whole source up front.
pub const MAX_BULK_ADD: usize = 1000;

/// Rows of a single bulk insert, so its parameter count stays bounded
/// regardless of playlist size.
pub const IMPORT_CHUNK_SIZE: usize = 100;

/// Whether a playlist is personal or shared server-wide.
#[derive(Clone, Copy, Debug, PartialEq, Eq, Structural)]
pub enum Scope {
    Solo,
    Server,
}

impl Scope {
    /// The scope's name in the database.
    pub open spec fn name(self) -> Seq<char> {
        match self {
            Scope::Solo => "solo"@,
            Scope::Server => "server"@,
        }
    }

    /// The scope's name in the database.
    pub fn as_str(self) -> (name: &'static str)
        ensures
            name@ == self.name(),
    {
        match self {
            Scope::Solo => "solo",
            Scope::Server => "server",
        }
    }
}

/// What creating a playlist takes.
#[derive(Debug, PartialEq, Eq)]
pub enum CreateStep {
    /// The name is taken: this is the answer.
    Refuse(String),
    /// A row with this owner and guild is inserted.
    Insert { owner_id: i64, guild_id: Option<i64> },
}

/// The answer when a playlist's name is taken.
pub open spec fn exists_text(name: Seq<char>) -> Seq<char> {
    "❌ A playlist named '"@ + name + "' already exists."@
}

/// The answer when a playlist's name is taken.
pub fn exists_message(name: &str) -> (message: String)
    ensures
        message@ == exists_text(name@),
{
    let mut message = "❌ A playlist named '".to_owned();
    message.append(name);
    message.append("' already exists.");
    message
}

/// Plans a new, empty playlist, unless there already is one of that name.
/// `lookup_id` is a user ID for `Scope::Solo` or a guild ID for
/// `Scope::Server`; `creator_id` is only used for `Scope::Server`, as the
/// owner.
pub fn create(scope: Scope, name: &str, lookup_id: i64, creator_id: i64, exists: bool) -> (step:
    CreateStep)
    ensures
        match step {
            CreateStep::Refuse(message) => exists && message@ == exists_text(name@),
            CreateStep::Insert { owner_id, guild_id } => !exists && (match scope {
                Scope::Solo => owner_id == lookup_id && guild_id is None,
                Scope::Server => owner_id == creator_id && guild_id == Some(lookup_id),
            }),
        },
{
    if exists {
        return CreateStep::Refuse(exists_message(name));
    }
    match scope {
        Scope::Solo => CreateStep::Insert { owner_id: lookup_id, guild_id: None },
        Scope::Server => CreateStep::Insert { owner_id: creator_id, guild_id: Some(lookup_id) },
    }
}

/// The answer once the row has been inserted, or once the insert has turned
/// out to clash with another playlist of that name.
pub fn create_message(name: &str, clashed: bool) -> (message: String)
    ensures
        message@ == (if clashed {
            exists_text(name@)
        } else {
            "✅ Created playlist '"@ + name@ + "'."@
        }),
{
    if clashed {
        return exists_message(name);
    }
    let mut message = "✅ Created playlist '".to_owned();
    message.append(name);
    message.append("'.");
    message
}

/// Outcome of an import.
#[derive(Clone, Copy, Debug, PartialEq, Eq, Structural)]
pub struct ImportResult {
    /// How many tracks were inserted.
    pub imported: usize,
    /// Whether the source had more tracks than `MAX_BULK_ADD` that were
    /// left unread once the cap was hit.
    pub truncated: bool,
}

/// The receive phase of an import: tracks are collected one at a time, up to
/// `MAX_BULK_ADD`, before anything is written.
#[derive(Debug, PartialEq, Eq)]
pub struct Import {
    pub tracks: Vec<TrackInfo>,
    pub truncated: bool,
    pub finished: bool,
}

/// `Import`, over characters.
pub struct ImportView {
    pub tracks: Seq<TrackInfoView>,
    pub truncated: bool,
    pub finished: bool,
}

impl View for Import {
    type V = ImportView;

    open spec fn view(&self) -> ImportView {
        ImportView {
            tracks: ytdlp::infos(self.tracks@),
            truncated: self.truncated,
            finished: self.finished,
        }
    }
}

impl ImportView {
    /// An import that has received nothing yet.
    pub open spec fn start() -> ImportView {
        ImportView { tracks: Seq::empty(), truncated: false, finished: false }
    }

    /// No more tracks than allowed.
    pub open spec fn well_formed(self) -> bool {
        self.tracks.len() <= MAX_BULK_ADD
    }

    /// The import after the stream's next answer: a track, or its end. Once
    /// the cap is hit one more answer tells whether there was more.
    pub open spec fn after(self, next: Option<TrackInfoView>) -> ImportView {
        if self.finished {
            self
        } else if self.tracks.len() >= MAX_BULK_ADD {
            ImportView { truncated: next is Some, finished: true, ..self }
        } else {
            match next {
                Some(track) => ImportView { tracks: self.tracks.push(track), ..self },
                None => ImportView { finished: true, ..self },
            }
        }
    }

    /// The import after a stream has yielded `tracks` and ended.
    pub open spec fn drained(self, tracks: Seq<TrackInfoView>) -> ImportView
        decreases tracks.len(),
    {
        if tracks.len() == 0 {
            self.after(None)
        } else {
            self.after(Some(tracks[0])).drained(tracks.skip(1))
        }
    }
}

impl Import {
    /// An import that has received nothing yet.
    pub fn new() -> (import: Import)
        ensures
            import@ == ImportView::start(),
            import@.well_formed(),
    {
        let tracks: Vec<TrackInfo> = Vec::new();
        assert(ytdlp::infos(tracks@) =~= Seq::<TrackInfoView>::empty());
        Import { tracks, truncated: false, finished: false }
    }

    /// Takes in the stream's next answer: a track, or its end.
    pub fn receive(&mut self, next: Option<TrackInfo>)
        requires
            old(self)@.well_formed(),
        ensures
            final(self)@.well_formed(),
            final(self)@ == old(self)@.after(
                match next {
                    Some(track) => Some(track@),
                    None => None,
                },
            ),
    {
        if self.finished {
            return;
        }
        if self.tracks.len() >= MAX_BULK_ADD {
            self.truncated = next.is_some();
            self.finished = true;
            return;
        }
        match next {
            Some(track) => {
                self.tracks.push(track);
                assert(ytdlp::infos(self.tracks@) =~= ytdlp::infos(old(self).tracks@).push(track@));
            },
            None => {
                self.finished = true;
            },
        }
    }

    /// What has been received.
    pub fn result(&self) -> (result: ImportResult)
        ensures
            result.imported == self@.tracks.len(),
            result.truncated == self.truncated,
    {
        ImportResult { imported: self.tracks.len(), truncated: self.truncated }
    }
}

proof fn lemma_finished_stays(import: ImportView, tracks: Seq<TrackInfoView>)
    requires
        import.finished,
    ensures
        import.drained(tracks) == import,
    decreases tracks.len(),
{
    if tracks.len() > 0 {
        lemma_finished_stays(import, tracks.skip(1));
    }
}

proof fn lemma_drained(import: ImportView, tracks: Seq<TrackInfoView>)
    requires
        !import.finished,
        !import.truncated,
        import.tracks.len() <= MAX_BULK_ADD,
    ensures
        ({
            let all = import.tracks + tracks;
            let end = import.drained(tracks);
            &&& end.finished
            &&& end.truncated == (all.len() > MAX_BULK_ADD)
            &&& end.tracks == (if all.len() > MAX_BULK_ADD {
                all.take(MAX_BULK_ADD as int)
            } else {
                all
            })
        }),
    decreases tracks.len(),
{
    let all = import.tracks + tracks;
    if tracks.len() == 0 {
        assert(all =~= import.tracks);
    } else {
        let next = import.after(Some(tracks[0]));
        if import.tracks.len() >= MAX_BULK_ADD {
            lemma_finished_stays(next, tracks.skip(1));
            assert(all.take(MAX_BULK_ADD as int) =~= import.tracks);
        } else {
            lemma_drained(next, tracks.skip(1));
            assert(next.tracks + tracks.skip(1) =~= all);
        }
    }
}

/// An import takes a stream's tracks in order, all of them up to the cap,
/// and says that it left some out exactly when the stream had more.
pub proof fn law_import_takes_the_first_tracks(tracks: Seq<TrackInfoView>)
    ensures
        ({
            let end = ImportView::start().drained(tracks);
            &&& end.finished
            &&& end.truncated == (tracks.len() > MAX_BULK_ADD)
            &&& end.tracks == (if tracks.len() > MAX_BULK_ADD {
                tracks.take(MAX_BULK_ADD as int)
            } else {
                tracks
            })
        }),
{
    lemma_drained(ImportView::start(), tracks);
    assert(ImportView::start().tracks + tracks =~= tracks);
}

/// A track that is to be inserted into a playlist.
#[derive(Debug, PartialEq, Eq)]
pub struct NewTrack {
    pub playlist_id: i64,
    pub url: String,
    pub title: String,
    pub uploader: Option<String>,
    pub duration: i64,
    pub added_order: i64,
}

impl NewTrack {
    /// Whether this row holds `track`, at `added_order`.
    pub open spec fn holds(self, track: TrackInfoView, playlist_id: i64, added_order: int) -> bool {
        &&& self.playlist_id == playlist_id
        &&& self.url@ == track.webpage_url
        &&& self.title@ == track.title
        &&& text::opt_text(self.uploader) == track.uploader
        &&& self.duration == track.duration
        &&& self.added_order == added_order
    }
}

/// The rows of one bulk insert: the tracks from `from` to `to`, in order,
/// with consecutive numbers from `start_order` on.
pub fn insert_chunk(
    playlist_id: i64,
    tracks: &Vec<TrackInfo>,
    from: usize,
    to: usize,
    start_order: i64,
) -> (rows: Vec<NewTrack>)
    requires
        from <= to <= tracks@.len() <= i64::MAX,
        start_order + (to - from) <= i64::MAX,
    ensures
        rows@.len() == to - from,
        forall|i: int|
            0 <= i < rows@.len() ==> (#[trigger] rows@[i]).holds(
                tracks@[from + i]@,
                playlist_id,
                start_order + i,
            ),
{
    let mut rows: Vec<NewTrack> = Vec::new();
    let mut i: usize = from;
    while i < to
        invariant
            from <= i <= to <= tracks@.len() <= i64::MAX,
            start_order + (to - from) <= i64::MAX,
            rows@.len() == i - from,
            forall|k: int|
                0 <= k < rows@.len() ==> (#[trigger] rows@[k]).holds(
                    tracks@[from + k]@,
                    playlist_id,
                    start_order + k,
                ),
        decreases to - i,
    {
        let track = &tracks[i];
        rows.push(
            NewTrack {
                playlist_id,
                url: track.webpage_url.clone(),
                title: track.title.clone(),
                uploader: track.uploader.clone(),
                duration: track.duration,
                added_order: start_order + (i - from) as i64,
            },
        );
        i += 1;
    }
    rows
}

/// The write phase of an import: the rows to insert, in bulk inserts of at
/// most `IMPORT_CHUNK_SIZE` rows, numbered consecutively from `next_order`
/// on.
pub fn import_tracks_from_stream(playlist_id: i64, tracks: &Vec<TrackInfo>, next_order: i64) -> (
    chunks: Vec<Vec<NewTrack>>)
    requires
        tracks@.len() <= i64::MAX,
        next_order + tracks@.len() <= i64::MAX,
    ensures
        chunks@.len() == chunk_count(tracks@.len()),
        forall|c: int|
            0 <= c < chunks@.len() ==> (#[trigger] chunks@[c])@.len() == chunk_len(
                tracks@.len(),
                c,
            ),
        forall|c: int, i: int|
            #![trigger chunks@[c]@[i]]
            0 <= c < chunks@.len() && 0 <= i < chunks@[c]@.len() ==> chunks@[c]@[i].holds(
                tracks@[c * IMPORT_CHUNK_SIZE + i]@,
                playlist_id,
                next_order + c * IMPORT_CHUNK_SIZE + i,
            ),
{
    let mut chunks: Vec<Vec<NewTrack>> = Vec::new();
    let mut done: usize = 0;
    while done < tracks.len()
        invariant
            done <= tracks@.len() <= i64::MAX,
            next_order + tracks@.len() <= i64::MAX,
            done == tracks@.len() || done == chunks@.len() * IMPORT_CHUNK_SIZE,
            done == tracks@.len() ==> chunks@.len() == chunk_count(tracks@.len()),
            forall|c: int|
                0 <= c < chunks@.len() ==> (#[trigger] chunks@[c])@.len() == chunk_len(
                    tracks@.len(),
                    c,
                ),
            forall|c: int, i: int|
                #![trigger chunks@[c]@[i]]
                0 <= c < chunks@.len() && 0 <= i < chunks@[c]@.len() ==> chunks@[c]@[i].holds(
                    tracks@[c * IMPORT_CHUNK_SIZE + i]@,
                    playlist_id,
                    next_order + c * IMPORT_CHUNK_SIZE + i,
                ),
        decreases tracks@.len() - done,
    {
        let end: usize = if tracks.len() - done >= IMPORT_CHUNK_SIZE {
            done + IMPORT_CHUNK_SIZE
        } else {
            tracks.len()
        };
        let chunk = insert_chunk(playlist_id, tracks, done, end, next_order + done as i64);
        chunks.push(chunk);
        done = end;
    }
    chunks
}

/// How many bulk inserts `n` tracks take.
pub open spec fn chunk_count(n: nat) -> nat {
    (n + IMPORT_CHUNK_SIZE as nat - 1) as nat / IMPORT_CHUNK_SIZE as nat
}

/// How many rows the `c`-th bulk insert for `n` tracks has: all but the last
/// one are full.
pub open spec fn chunk_len(n: nat, c: int) -> int {
    if n - c * IMPORT_CHUNK_SIZE >= IMPORT_CHUNK_SIZE {
        IMPORT_CHUNK_SIZE as int
    } else {
        n - c * IMPORT_CHUNK_SIZE
    }
}

/// Every track of an import is in exactly one bulk insert, and none of them
/// is empty or larger than allowed.
pub proof fn law_chunks_cover_the_import(n: nat, k: int)
    requires
        0 <= k < n,
    ensures
        0 <= k / (IMPORT_CHUNK_SIZE as int) < chunk_count(n),
        0 <= k % (IMPORT_CHUNK_SIZE as int) < chunk_len(n, k / (IMPORT_CHUNK_SIZE as int)),
        forall|c: int|
            0 <= c < chunk_count(n) ==> 0 < #[trigger] chunk_len(n, c) <= IMPORT_CHUNK_SIZE,
{
}

/// Where the `index`-th (1-based) track of a playlist stands, counted from
/// zero, if there can be such a track.
pub fn track_offset(index_1based: i64) -> (offset: Option<i64>)
    ensures
        match offset {
            Some(k) => index_1based >= 1 && k == index_1based - 1,
            None => index_1based < 1,
        },
{
    if index_1based < 1 {
        None
    } else {
        Some(index_1based - 1)
    }
}

/// What removing a track takes: its row is deleted, and the playlist's
/// tracks numbered above it move down by one.
#[derive(Clone, Copy, Debug, PartialEq, Eq, Structural)]
pub struct Removal {
    pub id: i64,
    pub playlist_id: i64,
    pub above: i64,
}

/// Plans the removal of a track, closing the gap it leaves so that
/// `added_order` stays a dense, gapless sequence.
pub fn remove_track(track: &PlaylistTrack) -> (removal: Removal)
    ensures
        removal.id == track.id,
        removal.playlist_id == track.playlist_id,
        removal.above == track.added_order,
{
    Removal { id: track.id, playlist_id: track.playlist_id, above: track.added_order }
}

/// Whether a playlist's tracks are numbered from zero on without a gap.
pub open spec fn dense(tracks: Seq<PlaylistTrack>) -> bool {
    forall|i: int| 0 <= i < tracks.len() ==> (#[trigger] tracks[i]).added_order == i
}

/// A track's number after a removal.
pub open spec fn closed_up(track: PlaylistTrack, removal: Removal) -> int {
    if track.playlist_id == removal.playlist_id && track.added_order > removal.above {
        track.added_order - 1
    } else {
        track.added_order as int
    }
}

/// Removing any track of a gapless playlist leaves it gapless, with the
/// other tracks in the same order.
pub proof fn law_removal_leaves_no_gap(tracks: Seq<PlaylistTrack>, k: int, removal: Removal, i: int)
    requires
        dense(tracks),
        0 <= k < tracks.len(),
        removal.above == tracks[k].added_order,
        forall|j: int|
            0 <= j < tracks.len() ==> (#[trigger] tracks[j]).playlist_id == removal.playlist_id,
        0 <= i < tracks.len() - 1,
    ensures
        closed_up(tracks.remove(k)[i], removal) == i,
        tracks.remove(k)[i] == (if i < k {
            tracks[i]
        } else {
            tracks[i + 1]
        }),
{
}

/// A list with one item moved from one position to another.
pub open spec fn with_moved<T>(items: Seq<T>, from: int, to: int) -> Seq<T> {
    items.remove(from).insert(to, items[from])
}

/// The order of a playlist's tracks, by id, after moving one from one
/// 1-based position to another; each track's number is its index. `None` if
/// either position is out of range.
pub fn move_track(ids: Vec<i64>, from_1based: i64, to_1based: i64) -> (order: Option<Vec<i64>>)
    ensures
        match order {
            Some(new_ids) => {
                &&& 1 <= from_1based <= ids@.len()
                &&& 1 <= to_1based <= ids@.len()
                &&& new_ids@ == with_moved(ids@, from_1based - 1, to_1based - 1)
                &&& new_ids@[to_1based - 1] == ids@[from_1based - 1]
                &&& new_ids@.remove(to_1based - 1) == ids@.remove(from_1based - 1)
            },
            None => !(1 <= from_1based <= ids@.len() && 1 <= to_1based <= ids@.len()),
        },
{
    if from_1based < 1 || to_1based < 1 || from_1based as u64 > ids.len() as u64 || to_1based as u64
        > ids.len() as u64 {
        return None;
    }
    let from: usize = (from_1based - 1) as usize;
    let to: usize = (to_1based - 1) as usize;
    let mut order = ids;
    let moved: i64 = order.remove(from);
    order.insert(to, moved);
    proof {
        law_move_keeps_the_others_in_order(ids@, from as int, to as int);
    }
    Some(order)
}

/// Moving a track puts it where it was asked to go, and neither loses nor
/// doubles a track.
pub proof fn law_move_reaches_its_target(ids: Seq<i64>, from: int, to: int)
    requires
        0 <= from < ids.len(),
        0 <= to < ids.len(),
    ensures
        with_moved(ids, from, to).len() == ids.len(),
        with_moved(ids, from, to)[to] == ids[from],
        with_moved(ids, from, to).to_multiset() == ids.to_multiset(),
{
    let rest = ids.remove(from);
    vstd::seq_lib::to_multiset_insert(rest, to, ids[from]);
    vstd::seq_lib::to_multiset_insert(rest, from, ids[from]);
    assert(rest.insert(from, ids[from]) =~= ids);
}

/// Moving a track there and back leaves the playlist as it was.
pub proof fn law_move_back_undoes_move(ids: Seq<i64>, from: int, to: int)
    requires
        0 <= from < ids.len(),
        0 <= to < ids.len(),
    ensures
        with_moved(with_moved(ids, from, to), to, from) == ids,
{
    let rest = ids.remove(from);
    let there = rest.insert(to, ids[from]);
    assert(there.remove(to) =~= rest);
    assert(rest.insert(from, ids[from]) =~= ids);
}

/// Whether a collaborator entry covers a user with the given roles.
pub open spec fn covers(c: Collaborator, user_id: i64, role_ids: Seq<i64>) -> bool {
    c.user_id == Some(user_id) || (c.role_id matches Some(rid) && role_ids.contains(rid))
}

/// Whether a user with the given roles may modify a locked server playlist.
pub open spec fn permits(
    owner_id: i64,
    user_id: i64,
    role_ids: Seq<i64>,
    collaborators: Seq<Collaborator>,
) -> bool {
    owner_id == user_id || exists|i: int|
        0 <= i < collaborators.len() && covers(#[trigger] collaborators[i], user_id, role_ids)
}

/// Whether `list` holds `item`.
fn holds_id(list: &Vec<i64>, item: i64) -> (found: bool)
    ensures
        found == list@.contains(item),
{
    let mut i: usize = 0;
    while i < list.len()
        invariant
            i <= list@.len(),
            forall|k: int| 0 <= k < i ==> list@[k] != item,
        decreases list@.len() - i,
    {
        if list[i] == item {
            assert(list@[i as int] == item);
            return true;
        }
        i += 1;
    }
    false
}

/// Whether `user_id` (with the given guild role IDs) may modify a locked
/// server playlist: the owner, a collaborator user, or a member of a
/// collaborator role.
pub fn has_permission(
    playlist: &Playlist,
    user_id: i64,
    role_ids: &Vec<i64>,
    collaborators: &Vec<Collaborator>,
) -> (allowed: bool)
    ensures
        allowed == permits(playlist.owner_id, user_id, role_ids@, collaborators@),
        allowed <==> {
            ||| playlist.owner_id == user_id
            ||| exists|i: int|
                0 <= i < collaborators@.len() && (#[trigger] collaborators@[i]).user_id == Some(user_id)
            ||| exists|i: int, k: int|
                #![trigger collaborators@[i], role_ids@[k]]
                0 <= i < collaborators@.len() && 0 <= k < role_ids@.len() && collaborators@[i].role_id
                    == Some(role_ids@[k])
        },
{
    if playlist.owner_id == user_id {
        return true;
    }
    let mut i: usize = 0;
    while i < collaborators.len()
        invariant
            i <= collaborators@.len(),
            forall|k: int|
                0 <= k < i ==> !covers(#[trigger] collaborators@[k], user_id, role_ids@),
        decreases collaborators@.len() - i,
    {
        let by_user = match collaborators[i].user_id {
            Some(id) => id == user_id,
            None => false,
        };
        let by_role = match collaborators[i].role_id {
            Some(rid) => holds_id(role_ids, rid),
            None => false,
        };
        if by_user || by_role {
            assert(covers(collaborators@[i as int], user_id, role_ids@));
            return true;
        }
        i += 1;
    }
    false
}

/// Whether a user collaborator has to be added: `false` if they already are
/// one.
pub fn add_collaborator_user(existing: &Vec<Collaborator>, user_id: i64) -> (add_row: bool)
    ensures
        add_row == (forall|i: int|
            0 <= i < existing@.len() ==> (#[trigger] existing@[i]).user_id != Some(user_id)),
{
    let mut i: usize = 0;
    while i < existing.len()
        invariant
            i <= existing@.len(),
            forall|k: int| 0 <= k < i ==> (#[trigger] existing@[k]).user_id != Some(user_id),
        decreases existing@.len() - i,
    {
        if let Some(id) = existing[i].user_id {
            if id == user_id {
                assert(existing@[i as int].user_id == Some(user_id));
                return false;
            }
        }
        i += 1;
    }
    true
}

/// Whether a role collaborator has to be added: `false` if it already is
/// one.
pub fn add_collaborator_role(existing: &Vec<Collaborator>, role_id: i64) -> (add_row: bool)
    ensures
        add_row == (forall|i: int|
            0 <= i < existing@.len() ==> (#[trigger] existing@[i]).role_id != Some(role_id)),
{
    let mut i: usize = 0;
    while i < existing.len()
        invariant
            i <= existing@.len(),
            forall|k: int| 0 <= k < i ==> (#[trigger] existing@[k]).role_id != Some(role_id),
        decreases existing@.len() - i,
    {
        if let Some(id) = existing[i].role_id {
            if id == role_id {
                assert(existing@[i as int].role_id == Some(role_id));
                return false;
            }
        }
        i += 1;
    }
    true
}

/// Adding a collaborator lets them, or everybody with the role, modify the
/// playlist, and takes nobody's permission away.
pub proof fn law_collaborators_gain_permission(
    owner_id: i64,
    collaborators: Seq<Collaborator>,
    added: Collaborator,
    user_id: i64,
    role_ids: Seq<i64>,
)
    ensures
        covers(added, user_id, role_ids) ==> permits(
            owner_id,
            user_id,
            role_ids,
            collaborators.push(added),
        ),
        permits(owner_id, user_id, role_ids, collaborators) ==> permits(
            owner_id,
            user_id,
            role_ids,
            collaborators.push(added),
        ),
{
    let more = collaborators.push(added);
    if covers(added, user_id, role_ids) {
        assert(covers(more[collaborators.len() as int], user_id, role_ids));
    }
    if permits(owner_id, user_id, role_ids, collaborators) && owner_id != user_id {
        let i = choose|i: int|
            0 <= i < collaborators.len() && covers(#[trigger] collaborators[i], user_id, role_ids);
        assert(covers(more[i], user_id, role_ids));
    }
}

/// The owner may always modify a playlist, whoever else may.
pub proof fn law_owner_has_permission(
    owner_id: i64,
    role_ids: Seq<i64>,
    collaborators: Seq<Collaborator>,
)
    ensures
        permits(owner_id, owner_id, role_ids, collaborators),
{
}

/// The collaborators left once every entry of one user is deleted, as handing
/// the playlist over to that user does.
pub open spec fn without_user(collaborators: Seq<Collaborator>, user_id: i64) -> Seq<Collaborator> {
    collaborators.filter(|c: Collaborator| c.user_id != Some(user_id))
}

/// Whether an entry does not stand for a user and a role at once.
pub open spec fn names_at_most_one(c: Collaborator) -> bool {
    c.user_id is None || c.role_id is None
}

/// Transferring a playlist takes nobody's permission away but the old
/// owner's, even though the new owner's own entries are dropped.
pub proof fn law_transfer_takes_only_the_old_owners_permission(
    old_owner: i64,
    new_owner: i64,
    collaborators: Seq<Collaborator>,
    user_id: i64,
    role_ids: Seq<i64>,
)
    requires
        forall|i: int| 0 <= i < collaborators.len() ==> names_at_most_one(#[trigger] collaborators[i]),
        user_id != old_owner,
        permits(old_owner, user_id, role_ids, collaborators) || user_id == new_owner,
    ensures
        permits(new_owner, user_id, role_ids, without_user(collaborators, new_owner)),
{
    if user_id != new_owner {
        let i = choose|i: int|
            0 <= i < collaborators.len() && covers(#[trigger] collaborators[i], user_id, role_ids);
        let keep = |c: Collaborator| c.user_id != Some(new_owner);
        let rest = without_user(collaborators, new_owner);
        assert(keep(collaborators[i]));
        collaborators.lemma_filter_contains(keep, i);
        assert(rest == collaborators.filter(keep));
        assert(rest.contains(collaborators[i]));
        let k = choose|k: int| 0 <= k < rest.len() && rest[k] == collaborators[i];
        assert(covers(rest[k], user_id, role_ids));
    }
}

/// Moving a track leaves the others in their order: without the moved track
/// the playlist is the same before and after.
pub proof fn law_move_keeps_the_others_in_order(ids: Seq<i64>, from: int, to: int)
    requires
        0 <= from < ids.len(),
        0 <= to < ids.len(),
    ensures
        with_moved(ids, from, to).len() == ids.len(),
        with_moved(ids, from, to).remove(to) == ids.remove(from),
        forall|i: int|
            0 <= i < ids.len() && (i < from && i < to || i > from && i > to)
                ==> #[trigger] with_moved(ids, from, to)[i] == ids[i],
        forall|i: int| from <= i < to ==> #[trigger] with_moved(ids, from, to)[i] == ids[i + 1],
        forall|i: int| to < i <= from ==> #[trigger] with_moved(ids, from, to)[i] == ids[i - 1],
{
    assert(with_moved(ids, from, to).remove(to) =~= ids.remove(from));
}

/// Whoever is on record as a collaborator may modify the playlist.
pub proof fn law_collaborating_users_have_permission(
    owner_id: i64,
    user_id: i64,
    role_ids: Seq<i64>,
    collaborators: Seq<Collaborator>,
    i: int,
)
    requires
        0 <= i < collaborators.len(),
        collaborators[i].user_id == Some(user_id),
    ensures
        permits(owner_id, user_id, role_ids, collaborators),
{
    assert(covers(collaborators[i], user_id, role_ids));
}

/// Whoever has a role that is on record as a collaborator may modify the
/// playlist, whatever other roles they have and in whatever order.
pub proof fn law_collaborating_roles_have_permission(
    owner_id: i64,
    user_id: i64,
    role_ids: Seq<i64>,
    collaborators: Seq<Collaborator>,
    i: int,
    k: int,
)
    requires
        0 <= i < collaborators.len(),
        0 <= k < role_ids.len(),
        collaborators[i].role_id == Some(role_ids[k]),
    ensures
        permits(owner_id, user_id, role_ids, collaborators),
{
    assert(role_ids.contains(role_ids[k]));
    assert(covers(collaborators[i], user_id, role_ids));
}

/// Nobody else has permission: not the owner, not on record, and without any
/// of the roles on record.
pub proof fn law_others_have_no_permission(
    owner_id: i64,
    user_id: i64,
    role_ids: Seq<i64>,
    collaborators: Seq<Collaborator>,
)
    requires
        user_id != owner_id,
        forall|i: int|
            0 <= i < collaborators.len() ==> (#[trigger] collaborators[i]).user_id != Some(user_id),
        forall|i: int, k: int|
            #![trigger collaborators[i], role_ids[k]]
            0 <= i < collaborators.len() && 0 <= k < role_ids.len() ==> collaborators[i].role_id
                != Some(role_ids[k]),
    ensures
        !permits(owner_id, user_id, role_ids, collaborators),
{
}

/// More roles never take permission away, and neither does another order of
/// them.
pub proof fn law_more_roles_never_hurt(
    owner_id: i64,
    user_id: i64,
    role_ids: Seq<i64>,
    more: Seq<i64>,
    collaborators: Seq<Collaborator>,
)
    requires
        permits(owner_id, user_id, role_ids, collaborators),
        forall|k: int| 0 <= k < role_ids.len() ==> more.contains(#[trigger] role_ids[k]),
    ensures
        permits(owner_id, user_id, more, collaborators),
{
    if owner_id != user_id {
        let i = choose|i: int|
            0 <= i < collaborators.len() && covers(#[trigger] collaborators[i], user_id, role_ids);
        assert(covers(collaborators[i], user_id, more));
    }
}

/// An import takes each track in behind the ones before it until the cap is
/// reached. From there on nothing more is taken in: one more answer tells
/// whether there was more, and after the end nothing changes any more.
pub proof fn law_import_receives_in_order(import: ImportView, track: TrackInfoView)
    ensures
        import.finished ==> import.after(Some(track)) == import && import.after(None) == import,
        !import.finished && import.tracks.len() < MAX_BULK_ADD ==> {
            &&& import.after(Some(track)).tracks == import.tracks.push(track)
            &&& import.after(Some(track)).truncated == import.truncated
            &&& !import.after(Some(track)).finished
            &&& import.after(None).tracks == import.tracks
            &&& import.after(None).truncated == import.truncated
            &&& import.after(None).finished
        },
        !import.finished && import.tracks.len() >= MAX_BULK_ADD ==> {
            &&& import.after(Some(track)).tracks == import.tracks
            &&& import.after(Some(track)).truncated
            &&& import.after(Some(track)).finished
            &&& import.after(None).tracks == import.tracks
            &&& !import.after(None).truncated
            &&& import.after(None).finished
        },
        ImportView::start().tracks.len() == 0,
        !ImportView::start().truncated,
        !ImportView::start().finished,
        MAX_BULK_ADD == 1000,
{
}

/// A row that is inserted for a track names it as the source did, in the
/// playlist it was added to and at the number it was given.
pub proof fn law_rows_hold_their_track(
    row: NewTrack,
    track: TrackInfoView,
    playlist_id: i64,
    added_order: int,
)
    ensures
        row.holds(track, playlist_id, added_order) <==> {
            &&& row.playlist_id == playlist_id
            &&& row.url@ == track.webpage_url
            &&& row.title@ == track.title
            &&& row.uploader is Some == track.uploader is Some
            &&& row.uploader is Some ==> row.uploader->0@ == track.uploader->0
            &&& row.duration == track.duration
            &&& row.added_order == added_order
        },
{
}

/// The bulk inserts of an import together have as many rows as it has
/// tracks: all but the last are full, and the last holds what is left.
pub proof fn law_chunks_add_up(n: nat, c: int)
    requires
        0 <= c < chunk_count(n),
    ensures
        n > 0,
        c + 1 < chunk_count(n) ==> chunk_len(n, c) == 100,
        c + 1 == chunk_count(n) ==> c * 100 + chunk_len(n, c) == n,
        0 < chunk_len(n, c) <= 100,
        chunk_count(0) == 0,
        (chunk_count(n) - 1) * 100 < n <= chunk_count(n) * 100,
{
}

/// A removal moves the later tracks of its own playlist down by one, and
/// touches no earlier one and no other playlist.
pub proof fn law_removal_moves_later_tracks_only(track: PlaylistTrack, removal: Removal)
    ensures
        track.playlist_id != removal.playlist_id ==> closed_up(track, removal) == track.added_order,
        track.added_order <= removal.above ==> closed_up(track, removal) == track.added_order,
        track.playlist_id == removal.playlist_id && track.added_order > removal.above ==> closed_up(
            track,
            removal,
        ) == track.added_order - 1,
{
}

/// Personal and shared playlists are told apart by name, and a clash names
/// the playlist it is about.
pub proof fn law_playlist_names(name: Seq<char>)
    ensures
        Scope::Solo.name() == "solo"@,
        Scope::Server.name() == "server"@,
        Scope::Solo.name() != Scope::Server.name(),
        exists_text(name) == "❌ A playlist named '"@ + name + "' already exists."@,
{
    reveal_strlit("solo");
    reveal_strlit("server");
    assert("solo"@.len() != "server"@.len());
}

/// The collaborators that are left when a user's entries are deleted are
/// exactly the others.
pub proof fn law_deleted_users_are_gone(collaborators: Seq<Collaborator>, user_id: i64, c: Collaborator)
    ensures
        without_user(collaborators, user_id).contains(c) <==> collaborators.contains(c)
            && c.user_id != Some(user_id),
{
    let keep = |c: Collaborator| c.user_id != Some(user_id);
    let rest = collaborators.filter(keep);
    assert(rest == without_user(collaborators, user_id));
    if rest.contains(c) {
        let k = choose|k: int| 0 <= k < rest.len() && rest[k] == c;
        collaborators.lemma_filter_pred(keep, k);
        lemma_filter_keeps_members(collaborators, keep, c);
    }
    if collaborators.contains(c) && c.user_id != Some(user_id) {
        let k = choose|k: int| 0 <= k < collaborators.len() && collaborators[k] == c;
        collaborators.lemma_filter_contains(keep, k);
    }
}

/// Filtering adds nothing.
proof fn lemma_filter_keeps_members(
    list: Seq<Collaborator>,
    keep: spec_fn(Collaborator) -> bool,
    c: Collaborator,
)
    requires
        list.filter(keep).contains(c),
    ensures
        list.contains(c),
    decreases list.len(),
{
    reveal(Seq::filter);
    if list.len() > 0 {
        let init = list.drop_last();
        if init.filter(keep).contains(c) {
            lemma_filter_keeps_members(init, keep, c);
            let k = choose|k: int| 0 <= k < init.len() && init[k] == c;
            assert(list[k] == c);
        } else {
            let rest = list.filter(keep);
            let k = choose|k: int| 0 <= k < rest.len() && rest[k] == c;
            if k < init.filter(keep).len() {
                assert(init.filter(keep)[k] == c);
            }
            assert(list[list.len() - 1] == c);
        }
    }
}

} // verus!
