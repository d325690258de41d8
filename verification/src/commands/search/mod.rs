//! `/search`: interactive YouTube search with pagination and a track picker.
//! A result set's session is kept under the id of the message that shows it.

use dashmap::DashMap;
use vstd::prelude::*;

use crate::discord;
use crate::discord::{
    ActionRow, ActionRowView, Button, ButtonStyle, ButtonView, Colour, Embed, EmbedField,
    EmbedFieldView, EmbedView, SelectMenu, SelectMenuView, SelectOption, SelectOptionView,
};
use crate::pagination;
use crate::pagination::{page_count, page_range};
use crate::text;
use crate::text::{chars_of, nat_string, padded_string, parse_usize, same_text, slice_text};
use crate::time::{Duration, NANOS_PER_SEC};
use crate::ytdlp;
use crate::ytdlp::{TrackInfo, TrackInfoView};

pub mod ids;

verus! {

/// How many results are asked for.
pub const MAX_RESULTS: u32 = 20;

/// Seconds an idle search session is kept around before `sweep_stale`
/// reclaims it.
pub const SESSION_MAX_AGE: u64 = 900;

/// The longest text Discord takes in a menu entry, in characters.
pub const MAX_OPTION_LEN: usize = 100;

/// One in-flight `/search` result set.
#[derive(Debug, PartialEq, Eq)]
pub struct SearchSession {
    pub query: String,
    pub tracks: Vec<TrackInfo>,
    pub created_at: Duration,
}

/// `SearchSession`, over characters.
pub struct SearchSessionView {
    pub query: Seq<char>,
    pub tracks: Seq<TrackInfoView>,
    pub created_at: Duration,
}

impl View for SearchSession {
    type V = SearchSessionView;

    open spec fn view(&self) -> SearchSessionView {
        SearchSessionView {
            query: self.query@,
            tracks: ytdlp::infos(self.tracks@),
            created_at: self.created_at,
        }
    }
}

impl Clone for SearchSession {
    fn clone(&self) -> (copy: Self)
        ensures
            copy@ == self@,
    {
        let mut tracks: Vec<TrackInfo> = Vec::new();
        let mut i: usize = 0;
        while i < self.tracks.len()
            invariant
                i <= self.tracks@.len(),
                tracks@ == self.tracks@.take(i as int),
            decreases self.tracks@.len() - i,
        {
            tracks.push(self.tracks[i].clone());
            assert(tracks@ =~= self.tracks@.take(i + 1));
            i += 1;
        }
        assert(tracks@ =~= self.tracks@);
        SearchSession { query: self.query.clone(), tracks, created_at: self.created_at }
    }
}

/// The sessions of all result sets that are shown, by message id.
pub type SearchSessions = DashMap<u64, SearchSession>;

/// The sessions that a map holds.
pub uninterp spec fn search_contents(sessions: DashMap<u64, SearchSession>) -> Map<
    u64,
    SearchSessionView,
>;

/// `DashMap::new`: a map that holds nothing.
#[verifier::external_body]
fn empty_map() -> (sessions: SearchSessions)
    ensures
        search_contents(sessions).dom() == Set::<u64>::empty(),
{
    DashMap::new()
}

/// `DashMap::insert`: the key has the value from now on, and every other key
/// what it had. The map is not shared during the call.
#[verifier::external_body]
fn insert_session(sessions: &mut SearchSessions, message_id: u64, session: SearchSession)
    ensures
        search_contents(*final(sessions)) == search_contents(*old(sessions)).insert(
            message_id,
            session@,
        ),
{
    sessions.insert(message_id, session);
}

/// `DashMap::get`: a copy of the key's value, if it has one.
#[verifier::external_body]
fn get_session(sessions: &SearchSessions, message_id: u64) -> (session: Option<SearchSession>)
    ensures
        match session {
            Some(s) => search_contents(*sessions).contains_key(message_id) && s@ == search_contents(
                *sessions,
            )[message_id],
            None => !search_contents(*sessions).contains_key(message_id),
        },
{
    sessions.get(&message_id).map(|session| session.clone())
}

/// `DashMap::remove`: the key has no value from now on, and every other key
/// what it had. The map is not shared during the call.
#[verifier::external_body]
fn remove_session(sessions: &mut SearchSessions, message_id: u64)
    ensures
        search_contents(*final(sessions)) == search_contents(*old(sessions)).remove(message_id),
{
    sessions.remove(&message_id);
}

/// `DashMap::retain`, by the age of the sessions: those that are young
/// enough stay as they are, and no others do. The map is not shared during
/// the call.
#[verifier::external_body]
fn retain_young(sessions: &mut SearchSessions, now: Duration)
    ensures
        search_contents(*final(sessions)) == search_contents(*old(sessions)).restrict(
            Set::new(|id: u64| is_young(search_contents(*old(sessions))[id].created_at, now)),
        ),
{
    sessions.retain(|_, session| young(session.created_at, now));
}

/// Whether something made at `created_at` is still kept at `now`.
pub open spec fn is_young(created_at: Duration, now: Duration) -> bool {
    now@ < created_at@ + SESSION_MAX_AGE * NANOS_PER_SEC
}

/// Whether a session made at `created_at` is still kept at `now`.
pub fn young(created_at: Duration, now: Duration) -> (yes: bool)
    ensures
        yes == is_young(created_at, now),
{
    now.saturating_sub(created_at).shorter_than(Duration::from_secs(SESSION_MAX_AGE))
}

/// No sessions yet.
pub fn new_sessions() -> (sessions: SearchSessions)
    ensures
        search_contents(sessions).dom() == Set::<u64>::empty(),
{
    empty_map()
}

/// Drops search sessions older than `SESSION_MAX_AGE`. Intended to be called
/// periodically.
pub fn sweep_stale(sessions: &mut SearchSessions, now: Duration)
    ensures
        forall|id: u64| #[trigger]
            search_contents(*final(sessions)).contains_key(id) <==> search_contents(
                *old(sessions),
            ).contains_key(id) && is_young(search_contents(*old(sessions))[id].created_at, now),
        forall|id: u64|
            search_contents(*final(sessions)).contains_key(id) ==> #[trigger] search_contents(
                *final(sessions),
            )[id] == search_contents(*old(sessions))[id],
{
    retain_young(sessions, now);
}

/// `s` cut down to `max` characters, the last of which then shows the cut.
pub open spec fn shortened(s: Seq<char>, max: nat) -> Seq<char> {
    if s.len() <= max {
        s
    } else if max == 0 {
        "…"@
    } else {
        s.take(max - 1) + "…"@
    }
}

/// Cuts `s` down to `max` characters.
pub fn truncate(s: &str, max: usize) -> (cut: String)
    ensures
        cut@ == shortened(s@, max as nat),
{
    let chars = chars_of(s);
    if chars.len() <= max {
        return s.to_owned();
    }
    let keep: usize = max.saturating_sub(1);
    let mut cut = slice_text(&chars, 0, keep);
    cut.append("…");
    assert(cut@ =~= shortened(s@, max as nat));
    cut
}

/// A cut text is never longer than asked for, but that the mark of the cut
/// always shows; and a text that fits is left alone.
pub proof fn law_truncated_text_fits(s: Seq<char>, max: nat)
    ensures
        shortened(s, max).len() <= (if max == 0 {
            1
        } else {
            max
        }),
        s.len() <= max ==> shortened(s, max) == s,
        s.len() > max ==> shortened(s, max).last() == '…',
{
    reveal_strlit("…");
}

/// A number of seconds as minutes and seconds; a negative one counts as
/// none.
pub open spec fn clock_text(seconds: int) -> Seq<char> {
    let secs = if seconds < 0 {
        0
    } else {
        seconds as nat
    };
    text::two_digits(secs / 60) + ":"@ + text::two_digits(secs % 60)
}

/// Renders a number of seconds as minutes and seconds, `mm:ss`.
pub fn format_duration(seconds: i64) -> (clock: String)
    ensures
        clock@ == clock_text(seconds as int),
{
    let secs: u64 = if seconds < 0 {
        0
    } else {
        seconds as u64
    };
    let mut clock = padded_string(secs / 60);
    clock.append(":");
    clock.append(padded_string(secs % 60).as_str());
    clock
}

/// How many pages the tracks take.
pub fn total_pages(tracks: &Vec<TrackInfo>) -> (pages: usize)
    ensures
        pages == pagination::pages_for(tracks@.len()),
        pages >= 1,
{
    page_count(tracks.len())
}

/// The embed above a page of results.
pub open spec fn results_embed(query: Seq<char>, count: nat, page: nat) -> EmbedView {
    EmbedView {
        title: "🔎 Search Results: `"@ + query + "`"@,
        description: "Found "@ + text::nat_text(count)
            + " tracks. Please select one from the menu below."@,
        fields: Seq::empty(),
        footer: Some(
            "Page "@ + text::nat_text(pagination::shown_page(count, page) + 1) + "/"@
                + text::nat_text(pagination::pages_for(count)),
        ),
        colour: Colour::Red,
        thumbnail: None,
    }
}

/// Builds the embed above a page of results.
pub fn build_embed(query: &str, tracks: &Vec<TrackInfo>, page: usize) -> (embed: Embed)
    ensures
        embed@ == results_embed(query@, tracks@.len(), page as nat),
{
    let pages: usize = total_pages(tracks);
    let (shown, _start, _end): (usize, usize, usize) = page_range(tracks.len(), page);
    let mut title = "🔎 Search Results: `".to_owned();
    title.append(query);
    title.append("`");
    let mut description = "Found ".to_owned();
    description.append(nat_string(tracks.len() as u64).as_str());
    description.append(" tracks. Please select one from the menu below.");
    let mut footer = "Page ".to_owned();
    footer.append(nat_string(shown as u64 + 1).as_str());
    footer.append("/");
    footer.append(nat_string(pages as u64).as_str());
    let fields: Vec<EmbedField> = Vec::new();
    assert(fields@.map_values(|f: EmbedField| f@) =~= Seq::<EmbedFieldView>::empty());
    Embed { title, description, fields, footer: Some(footer), colour: Colour::Red, thumbnail: None }
}

/// The menu entry of the result at `index`.
pub open spec fn option_view(track: TrackInfoView, index: nat) -> SelectOptionView {
    let uploader = match track.uploader {
        Some(name) => name,
        None => "Unknown"@,
    };
    SelectOptionView {
        label: shortened(
            text::nat_text(index + 1) + ". "@ + track.title,
            MAX_OPTION_LEN as nat,
        ),
        value: text::nat_text(index),
        description: shortened(
            "👤 "@ + uploader + " | 🕒 "@ + clock_text(track.duration as int),
            MAX_OPTION_LEN as nat,
        ),
    }
}

/// The menu entries of the results from `start` to `end`.
pub open spec fn option_views(tracks: Seq<TrackInfoView>, start: nat, end: nat) -> Seq<
    SelectOptionView,
> {
    Seq::new((end - start) as nat, |i: int| option_view(tracks[start + i], (start + i) as nat))
}

fn select_option(track: &TrackInfo, index: usize) -> (option: SelectOption)
    requires
        index < usize::MAX,
    ensures
        option@ == option_view(track@, index as nat),
{
    let mut numbered = nat_string((index + 1) as u64);
    numbered.append(". ");
    numbered.append(track.title.as_str());
    let mut about = "👤 ".to_owned();
    match &track.uploader {
        Some(uploader) => {
            about.append(uploader.as_str());
        },
        None => {
            about.append("Unknown");
        },
    }
    about.append(" | 🕒 ");
    about.append(format_duration(track.duration).as_str());
    SelectOption {
        label: truncate(numbered.as_str(), MAX_OPTION_LEN),
        value: nat_string(index as u64),
        description: truncate(about.as_str(), MAX_OPTION_LEN),
    }
}

/// The menu and buttons below a page of results.
pub open spec fn results_rows(tracks: Seq<TrackInfoView>, page: nat) -> Seq<ActionRowView> {
    let n = tracks.len();
    let pages = pagination::pages_for(n);
    let shown = pagination::shown_page(n, page);
    seq![
        ActionRowView::Select(
            SelectMenuView {
                custom_id: ids::SELECT@,
                options: option_views(
                    tracks,
                    pagination::page_start(n, page),
                    pagination::page_end(n, page),
                ),
                placeholder: "Select a track to play..."@,
            },
        ),
        ActionRowView::Buttons(
            seq![
                ButtonView {
                    custom_id: ids::prev_id(
                        if shown == 0 {
                            0
                        } else {
                            (shown - 1) as nat
                        },
                    ),
                    label: Some("⏪ Previous"@),
                    emoji: None,
                    style: ButtonStyle::Secondary,
                    disabled: shown == 0,
                },
                ButtonView {
                    custom_id: ids::next_id(
                        if shown + 1 < pages {
                            shown + 1
                        } else {
                            (pages - 1) as nat
                        },
                    ),
                    label: Some("Next ⏩"@),
                    emoji: None,
                    style: ButtonStyle::Secondary,
                    disabled: shown + 1 >= pages,
                },
            ],
        ),
    ]
}

fn select_menu(tracks: &Vec<TrackInfo>, start: usize, end: usize) -> (menu: SelectMenu)
    requires
        start <= end <= tracks@.len(),
    ensures
        menu@ == (SelectMenuView {
            custom_id: ids::SELECT@,
            options: option_views(ytdlp::infos(tracks@), start as nat, end as nat),
            placeholder: "Select a track to play..."@,
        }),
{
    let mut options: Vec<SelectOption> = Vec::new();
    let ghost all = ytdlp::infos(tracks@);
    let mut i: usize = start;
    while i < end
        invariant
            start <= i <= end <= tracks.len(),
            all == ytdlp::infos(tracks@),
            options@.map_values(|o: SelectOption| o@) == option_views(
                all,
                start as nat,
                i as nat,
            ),
        decreases end - i,
    {
        let ghost before = options@.map_values(|o: SelectOption| o@);
        assert(all[i as int] == tracks@[i as int]@);
        options.push(select_option(&tracks[i], i));
        i += 1;
        proof {
            let now = options@.map_values(|o: SelectOption| o@);
            assert(now =~= before.push(option_view(all[i - 1], (i - 1) as nat)));
            assert(now =~= option_views(all, start as nat, i as nat));
        }
    }
    SelectMenu {
        custom_id: ids::SELECT.to_owned(),
        options,
        placeholder: "Select a track to play...".to_owned(),
    }
}

fn page_buttons(shown: usize, pages: usize) -> (buttons: Vec<Button>)
    requires
        shown < pages,
    ensures
        buttons@.map_values(|b: Button| b@) == seq![
            ButtonView {
                custom_id: ids::prev_id(
                    if shown == 0 {
                        0
                    } else {
                        (shown - 1) as nat
                    },
                ),
                label: Some("⏪ Previous"@),
                emoji: None,
                style: ButtonStyle::Secondary,
                disabled: shown == 0,
            },
            ButtonView {
                custom_id: ids::next_id(
                    if shown + 1 < pages {
                        (shown + 1) as nat
                    } else {
                        (pages - 1) as nat
                    },
                ),
                label: Some("Next ⏩"@),
                emoji: None,
                style: ButtonStyle::Secondary,
                disabled: shown + 1 >= pages,
            },
        ],
{
    let last: bool = shown == pages - 1;
    let mut buttons: Vec<Button> = Vec::new();
    buttons.push(
        Button {
            custom_id: ids::prev(shown.saturating_sub(1)),
            label: Some("⏪ Previous".to_owned()),
            emoji: None,
            style: ButtonStyle::Secondary,
            disabled: shown == 0,
        },
    );
    buttons.push(
        Button {
            custom_id: ids::next(
                if last {
                    shown
                } else {
                    shown + 1
                },
            ),
            label: Some("Next ⏩".to_owned()),
            emoji: None,
            style: ButtonStyle::Secondary,
            disabled: last,
        },
    );
    buttons
}

/// Builds the menu and buttons below a page of results.
pub fn build_components(tracks: &Vec<TrackInfo>, page: usize) -> (rows: Vec<ActionRow>)
    ensures
        discord::rows(rows@) == results_rows(ytdlp::infos(tracks@), page as nat),
{
    let pages: usize = total_pages(tracks);
    let (shown, start, end): (usize, usize, usize) = page_range(tracks.len(), page);
    let mut rows: Vec<ActionRow> = Vec::new();
    rows.push(ActionRow::Select(select_menu(tracks, start, end)));
    rows.push(ActionRow::Buttons(page_buttons(shown, pages)));
    assert(discord::rows(rows@) =~= results_rows(ytdlp::infos(tracks@), page as nat));
    rows
}

/// A page of results.
#[derive(Debug, PartialEq, Eq)]
pub struct ResultsPage {
    pub embed: Embed,
    pub components: Vec<ActionRow>,
}

impl ResultsPage {
    /// Whether this is what a session shows on page `page`.
    pub open spec fn shows(self, session: SearchSessionView, page: nat) -> bool {
        &&& self.embed@ == results_embed(session.query, session.tracks.len(), page)
        &&& discord::rows(self.components@) == results_rows(session.tracks, page)
    }
}

/// How a search is answered.
#[derive(Debug, PartialEq, Eq)]
pub enum SearchReply {
    /// With a line of text.
    Say(String),
    /// With the first page of its results. The session has to be registered
    /// once the message that shows the page is known.
    Show { session: SearchSession, page: ResultsPage },
}

/// Answers a search for `query`, given what it found.
pub fn search(query: String, found: Result<Vec<TrackInfo>, String>, now: Duration) -> (reply:
    SearchReply)
    ensures
        match (found, reply) {
            (Err(e), SearchReply::Say(words)) => words@ == e@,
            (Ok(tracks), SearchReply::Say(words)) => tracks@.len() == 0 && words@
                == "❌ No results were found for `"@ + query@ + "`."@,
            (Ok(tracks), SearchReply::Show { session, page }) => {
                &&& tracks@.len() > 0
                &&& session@ == (SearchSessionView {
                    query: query@,
                    tracks: ytdlp::infos(tracks@),
                    created_at: now,
                })
                &&& page.shows(session@, 0)
            },
            (Err(e), SearchReply::Show { session, page }) => false,
        },
{
    match found {
        Err(e) => SearchReply::Say(e),
        Ok(tracks) => {
            if tracks.len() == 0 {
                let mut words = "❌ No results were found for `".to_owned();
                words.append(query.as_str());
                words.append("`.");
                return SearchReply::Say(words);
            }
            let page = ResultsPage {
                embed: build_embed(query.as_str(), &tracks, 0),
                components: build_components(&tracks, 0),
            };
            SearchReply::Show { session: SearchSession { query, tracks, created_at: now }, page }
        },
    }
}

/// Registers a result set's session under the message that shows it.
pub fn register(sessions: &mut SearchSessions, message_id: u64, session: SearchSession)
    ensures
        search_contents(*final(sessions)) == search_contents(*old(sessions)).insert(
            message_id,
            session@,
        ),
{
    insert_session(sessions, message_id, session);
}

/// What a press below a result set is about.
#[derive(Clone, Copy, Debug, PartialEq, Eq, Structural)]
pub enum SearchPress {
    /// It is none of the search's own.
    Ignore,
    /// A track was picked from the menu.
    Select,
    /// This page was asked for.
    Page(usize),
}

/// Tells page navigation and track selection apart.
pub fn handle_component_interaction(custom_id: &str) -> (press: SearchPress)
    ensures
        match press {
            SearchPress::Select => custom_id@ == ids::SELECT@,
            SearchPress::Page(n) => custom_id@ != ids::SELECT@ && ids::page_of(custom_id@) == Some(
                n as nat,
            ),
            SearchPress::Ignore => custom_id@ != ids::SELECT@ && ids::page_of(custom_id@) is None,
        },
{
    if same_text(custom_id, ids::SELECT) {
        return SearchPress::Select;
    }
    match ids::target_page(custom_id) {
        Some(page) => SearchPress::Page(page),
        None => SearchPress::Ignore,
    }
}

/// The page that was asked for, or `None` if the result set is no longer
/// known: the press is acknowledged then, and that is all.
pub fn handle_page(sessions: &SearchSessions, message_id: u64, page: usize) -> (shown: Option<
    ResultsPage,
>)
    ensures
        match shown {
            Some(p) => search_contents(*sessions).contains_key(message_id) && p.shows(
                search_contents(*sessions)[message_id],
                page as nat,
            ),
            None => !search_contents(*sessions).contains_key(message_id),
        },
{
    match get_session(sessions, message_id) {
        Some(session) => Some(
            ResultsPage {
                embed: build_embed(session.query.as_str(), &session.tracks, page),
                components: build_components(&session.tracks, page),
            },
        ),
        None => None,
    }
}

/// What picking a track calls for.
#[derive(Debug, PartialEq, Eq)]
pub enum SelectStep {
    /// No answer at all.
    Ignore,
    /// The result set is no longer known: the press is acknowledged, and
    /// that is all.
    Acknowledge,
    /// Whoever picked the track is in no voice channel, and is told so.
    Refuse(String),
    /// The press is acknowledged and the track queued, in this voice
    /// channel.
    Enqueue { track: TrackInfo, voice_channel: u64 },
}

/// The result that the picked menu entry stands for.
pub open spec fn picked_index(values: Seq<Seq<char>>) -> Option<nat> {
    if values.len() == 0 {
        None
    } else {
        text::parsed_number(values[0], usize::MAX as nat)
    }
}

/// Decides on a track picked from the menu: `values` are the entries that
/// were picked, `voice_channel` is where whoever picked it is.
pub fn handle_select(
    sessions: &SearchSessions,
    message_id: u64,
    values: &Vec<String>,
    in_guild: bool,
    voice_channel: Option<u64>,
) -> (step: SelectStep)
    ensures
        ({
            let index = picked_index(text::texts(values@));
            let known = search_contents(*sessions).contains_key(message_id);
            let tracks = search_contents(*sessions)[message_id].tracks;
            match step {
                SelectStep::Ignore => index is None || (known && (index->0 >= tracks.len()
                    || !in_guild)),
                SelectStep::Acknowledge => index is Some && !known,
                SelectStep::Refuse(words) => {
                    &&& index is Some
                    &&& known
                    &&& index->0 < tracks.len()
                    &&& in_guild
                    &&& voice_channel is None
                    &&& words@ == "You must be in a voice channel first."@
                },
                SelectStep::Enqueue { track, voice_channel: channel } => {
                    &&& index is Some
                    &&& known
                    &&& index->0 < tracks.len()
                    &&& in_guild
                    &&& voice_channel == Some(channel)
                    &&& track@ == tracks[index->0 as int]
                },
            }
        }),
{
    if values.len() == 0 {
        return SelectStep::Ignore;
    }
    assert(text::texts(values@)[0] == values@[0]@);
    let index: usize = match parse_usize(values[0].as_str()) {
        Some(index) => index,
        None => {
            return SelectStep::Ignore;
        },
    };
    let session = match get_session(sessions, message_id) {
        Some(session) => session,
        None => {
            return SelectStep::Acknowledge;
        },
    };
    if index >= session.tracks.len() || !in_guild {
        return SelectStep::Ignore;
    }
    match voice_channel {
        Some(channel) => SelectStep::Enqueue {
            track: session.tracks[index].clone(),
            voice_channel: channel,
        },
        None => SelectStep::Refuse("You must be in a voice channel first.".to_owned()),
    }
}

/// Closes a result set once its picked track has been queued, and confirms
/// the track.
pub fn finish_select(sessions: &mut SearchSessions, message_id: u64, track: &TrackInfo) -> (words:
    String)
    ensures
        search_contents(*final(sessions)) == search_contents(*old(sessions)).remove(message_id),
        words@ == "✅ Added **"@ + track.title@ + "** to the queue."@,
{
    remove_session(sessions, message_id);
    let mut words = "✅ Added **".to_owned();
    words.append(track.title.as_str());
    words.append("** to the queue.");
    words
}

/// Picking the `k`-th entry of a page's menu picks the `k`-th result of that
/// page; the menu has as many entries as the page has results.
pub proof fn law_picked_entry_is_the_shown_result(tracks: Seq<TrackInfoView>, page: nat, k: int)
    requires
        tracks.len() <= usize::MAX,
        0 <= k < pagination::page_items(tracks, page).len(),
    ensures
        ({
            let entry = results_rows(tracks, page)[0]->Select_0.options[k];
            let index = picked_index(seq![entry.value]);
            &&& index is Some
            &&& index->0 < tracks.len()
            &&& tracks[index->0 as int] == pagination::page_items(tracks, page)[k]
        }),
        results_rows(tracks, page)[0]->Select_0.options.len() == pagination::page_items(
            tracks,
            page,
        ).len(),
{
    let n = tracks.len();
    let start = pagination::page_start(n, page);
    text::lemma_parse_nat_text((start + k) as nat, usize::MAX as nat);
}

/// The menu and the two buttons never share a custom id.
pub proof fn law_controls_are_distinct(tracks: Seq<TrackInfoView>, page: nat)
    ensures
        ({
            let rows = results_rows(tracks, page);
            let buttons = rows[1]->Buttons_0;
            &&& rows[0]->Select_0.custom_id != buttons[0].custom_id
            &&& rows[0]->Select_0.custom_id != buttons[1].custom_id
            &&& buttons[0].custom_id != buttons[1].custom_id
        }),
{
    let n = tracks.len();
    let shown = pagination::shown_page(n, page);
    let pages = pagination::pages_for(n);
    ids::law_ids_never_collide(
        if shown == 0 {
            0
        } else {
            (shown - 1) as nat
        },
        if shown + 1 < pages {
            shown + 1
        } else {
            (pages - 1) as nat
        },
    );
}

/// A cut text is the beginning of the text, up to the mark of the cut.
pub proof fn law_truncated_text_is_its_beginning(s: Seq<char>, max: nat, i: int)
    requires
        s.len() > max,
        max > 0,
    ensures
        shortened(s, max).len() == max,
        0 <= i < max - 1 ==> shortened(s, max)[i] == s[i],
        shortened(s, max)[max - 1] == '…',
{
    reveal_strlit("…");
}

/// A clock shows whole minutes and the seconds beyond them, and reads back;
/// a negative length counts as none.
pub proof fn law_clock_reads_back(seconds: int)
    ensures
        ({
            let clock = clock_text(seconds);
            let colon = clock.len() - 3;
            &&& colon >= 2
            &&& clock[colon] == ':'
            &&& text::digits_value(clock.take(colon)) * 60 + text::digits_value(
                clock.skip(colon + 1),
            ) == (if seconds < 0 {
                0
            } else {
                seconds
            })
            &&& text::digits_value(clock.skip(colon + 1)) < 60
        }),
{
    let secs = if seconds < 0 {
        0
    } else {
        seconds as nat
    };
    let clock = clock_text(seconds);
    let m = text::two_digits(secs / 60);
    let s = text::two_digits(secs % 60);
    text::law_two_digits_read_back(secs / 60);
    text::law_two_digits_read_back(secs % 60);
    reveal_strlit(":");
    let colon = clock.len() - 3;
    assert(clock.take(colon) =~= m);
    assert(clock.skip(colon + 1) =~= s);
}

/// The head of a page of results names the query, how many tracks were
/// found, and which page of how many is shown.
pub proof fn law_results_name_the_query(query: Seq<char>, count: nat, page: nat)
    ensures
        ({
            let embed = results_embed(query, count, page);
            &&& embed.title == "🔎 Search Results: `"@ + query + "`"@
            &&& embed.description == "Found "@ + text::nat_text(count)
                + " tracks. Please select one from the menu below."@
            &&& embed.footer == Some(
                "Page "@ + text::nat_text((pagination::shown_page(count, page) + 1) as nat) + "/"@
                    + text::nat_text(pagination::pages_for(count)),
            )
            &&& embed.fields.len() == 0
            &&& embed.colour == Colour::Red
            &&& embed.thumbnail is None
        }),
{
}

/// The menu of a page has an entry for each of its results, in order, that
/// shows its number, title, uploader and length, and stands for it.
pub proof fn law_menu_shows_the_results(tracks: Seq<TrackInfoView>, page: nat, k: int)
    requires
        tracks.len() <= usize::MAX,
        0 <= k < pagination::page_items(tracks, page).len(),
    ensures
        ({
            let rows = results_rows(tracks, page);
            let menu = rows[0]->Select_0;
            let index = pagination::shown_page(tracks.len(), page) * 10 + k;
            let track = tracks[index];
            &&& rows.len() == 2
            &&& rows[0] is Select
            &&& menu.custom_id == "search:select"@
            &&& menu.placeholder == "Select a track to play..."@
            &&& menu.options.len() == pagination::page_items(tracks, page).len()
            &&& 0 <= index < tracks.len()
            &&& menu.options[k].value == text::nat_text(index as nat)
            &&& menu.options[k].label == shortened(
                text::nat_text((index + 1) as nat) + ". "@ + track.title,
                100,
            )
            &&& menu.options[k].description == shortened(
                "👤 "@ + (match track.uploader {
                    Some(name) => name,
                    None => "Unknown"@,
                }) + " | 🕒 "@ + clock_text(track.duration as int),
                100,
            )
        }),
{
}

/// Previous and next lead to the neighbouring pages of results, and are out
/// of reach at either end.
pub proof fn law_search_buttons_lead_to_the_neighbours(tracks: Seq<TrackInfoView>, page: nat)
    requires
        tracks.len() <= usize::MAX,
    ensures
        ({
            let rows = results_rows(tracks, page);
            let buttons = rows[1]->Buttons_0;
            let shown = pagination::shown_page(tracks.len(), page);
            let pages = pagination::pages_for(tracks.len());
            &&& rows[1] is Buttons
            &&& buttons.len() == 2
            &&& shown > 0 ==> !buttons[0].disabled && ids::page_of(buttons[0].custom_id) == Some(
                (shown - 1) as nat,
            )
            &&& shown == 0 ==> buttons[0].disabled
            &&& shown + 1 < pages ==> !buttons[1].disabled && ids::page_of(buttons[1].custom_id)
                == Some((shown + 1) as nat)
            &&& shown + 1 >= pages ==> buttons[1].disabled
            &&& buttons[0].label == Some("⏪ Previous"@)
            &&& buttons[1].label == Some("Next ⏩"@)
            &&& forall|i: int|
                0 <= i < 2 ==> (#[trigger] buttons[i]).style == ButtonStyle::Secondary
                    && buttons[i].emoji is None
        }),
{
    let shown = pagination::shown_page(tracks.len(), page);
    if shown > 0 {
        ids::law_ids_lead_to_their_page((shown - 1) as usize);
    }
    if shown + 1 < pagination::pages_for(tracks.len()) {
        ids::law_ids_lead_to_their_page((shown + 1) as usize);
    }
}

/// The first entry that was picked counts, by the number it stands for.
pub proof fn law_first_pick_counts(values: Seq<Seq<char>>)
    ensures
        values.len() == 0 ==> picked_index(values) is None,
        values.len() > 0 ==> picked_index(values) == text::parsed_number(
            values[0],
            usize::MAX as nat,
        ),
{
}

/// A page of results shows its session: the query, the count and the tracks.
pub proof fn law_results_page_shows_its_session(
    shown: ResultsPage,
    session: SearchSessionView,
    page: nat,
)
    ensures
        shown.shows(session, page) <==> shown.embed@ == results_embed(
            session.query,
            session.tracks.len(),
            page,
        ) && discord::rows(shown.components@) == results_rows(session.tracks, page),
{
}

/// A search session is kept for a quarter of an hour, and no longer.
pub proof fn law_sessions_are_kept_a_quarter_of_an_hour(created_at: Duration, now: Duration)
    ensures
        is_young(created_at, now) <==> now@ < created_at@ + 900_000_000_000,
{
}

/// A session is seen with its query and all of its tracks, in order.
pub proof fn law_sessions_are_seen_as_they_are(session: SearchSession, i: int)
    ensures
        session@.query == session.query@,
        session@.created_at == session.created_at,
        session@.tracks.len() == session.tracks@.len(),
        0 <= i < session.tracks@.len() ==> session@.tracks[i] == session.tracks@[i]@,
{
}

} // verus!
