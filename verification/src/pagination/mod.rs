//! Generic Prev/Next pagination for long lists. A list's session is kept
//! under the id of the message that shows it.

use dashmap::DashMap;
use vstd::prelude::*;

use crate::discord;
use crate::discord::{
    ActionRow, ActionRowView, Button, ButtonStyle, ButtonView, Colour, Embed, EmbedField,
    EmbedFieldView, EmbedView,
};
use crate::text;
use crate::text::{copy_texts, join, nat_string, push_text};
use crate::time::{Duration, NANOS_PER_SEC};

pub mod ids;

verus! {

/// Items on a page.
pub const PAGE_SIZE: usize = 10;

/// Seconds an idle paginator session is kept around before `sweep_stale`
/// reclaims it.
pub const SESSION_MAX_AGE: u64 = 900;

/// One paginated list: pre-formatted lines (one per item) plus the embed
/// chrome around them.
#[derive(Debug, PartialEq, Eq)]
pub struct ListSession {
    pub title: String,
    pub color: Colour,
    pub lines: Vec<String>,
    pub footer: String,
    pub created_at: Duration,
}

/// `ListSession`, over characters.
pub struct ListSessionView {
    pub title: Seq<char>,
    pub color: Colour,
    pub lines: Seq<Seq<char>>,
    pub footer: Seq<char>,
    pub created_at: Duration,
}

impl View for ListSession {
    type V = ListSessionView;

    open spec fn view(&self) -> ListSessionView {
        ListSessionView {
            title: self.title@,
            color: self.color,
            lines: text::texts(self.lines@),
            footer: self.footer@,
            created_at: self.created_at,
        }
    }
}

impl Clone for ListSession {
    fn clone(&self) -> (copy: Self)
        ensures
            copy@ == self@,
    {
        ListSession {
            title: self.title.clone(),
            color: self.color,
            lines: copy_texts(&self.lines),
            footer: self.footer.clone(),
            created_at: self.created_at,
        }
    }
}

/// A list that is ready to be shown, to everybody or to whoever asked for it
/// only.
#[derive(Debug, PartialEq, Eq)]
pub struct Listing {
    pub title: String,
    pub color: Colour,
    pub lines: Vec<String>,
    pub footer: String,
    pub ephemeral: bool,
}

/// `Listing`, over characters.
pub struct ListingView {
    pub title: Seq<char>,
    pub color: Colour,
    pub lines: Seq<Seq<char>>,
    pub footer: Seq<char>,
    pub ephemeral: bool,
}

impl View for Listing {
    type V = ListingView;

    open spec fn view(&self) -> ListingView {
        ListingView {
            title: self.title@,
            color: self.color,
            lines: text::texts(self.lines@),
            footer: self.footer@,
            ephemeral: self.ephemeral,
        }
    }
}

/// `dashmap`'s concurrent map.
#[verifier::external_type_specification]
#[verifier::external_body]
#[verifier::reject_recursive_types(K)]
#[verifier::reject_recursive_types(V)]
#[verifier::reject_recursive_types(S)]
pub struct ExDashMap<K, V, S>(DashMap<K, V, S>);

/// The sessions of all lists that are shown, by message id.
pub type ListSessions = DashMap<u64, ListSession>;

/// The sessions that a map holds.
pub uninterp spec fn list_contents(sessions: DashMap<u64, ListSession>) -> Map<
    u64,
    ListSessionView,
>;

/// `DashMap::new`: a map that holds nothing.
#[verifier::external_body]
fn empty_map() -> (sessions: ListSessions)
    ensures
        list_contents(sessions).dom() == Set::<u64>::empty(),
{
    DashMap::new()
}

/// `DashMap::insert`: the key has the value from now on, and every other key
/// what it had. The map is not shared during the call.
#[verifier::external_body]
fn insert_session(sessions: &mut ListSessions, message_id: u64, session: ListSession)
    ensures
        list_contents(*final(sessions)) == list_contents(*old(sessions)).insert(
            message_id,
            session@,
        ),
{
    sessions.insert(message_id, session);
}

/// `DashMap::get`: a copy of the key's value, if it has one.
#[verifier::external_body]
fn get_session(sessions: &ListSessions, message_id: u64) -> (session: Option<ListSession>)
    ensures
        match session {
            Some(s) => list_contents(*sessions).contains_key(message_id) && s@ == list_contents(
                *sessions,
            )[message_id],
            None => !list_contents(*sessions).contains_key(message_id),
        },
{
    sessions.get(&message_id).map(|session| session.clone())
}

/// `DashMap::retain`, by the age of the sessions: those that are young
/// enough stay as they are, and no others do. The map is not shared during
/// the call.
#[verifier::external_body]
fn retain_young(sessions: &mut ListSessions, now: Duration)
    ensures
        list_contents(*final(sessions)) == list_contents(*old(sessions)).restrict(
            Set::new(|id: u64| is_young(list_contents(*old(sessions))[id].created_at, now)),
        ),
{
    sessions.retain(|_, session| young(session.created_at, now));
}

/// Whether something made at `created_at` is still kept at `now`.
pub open spec fn is_young(created_at: Duration, now: Duration) -> bool {
    now@ < created_at@ + SESSION_MAX_AGE * NANOS_PER_SEC
}

/// Whether a session made at `created_at` is still kept at `now`.
pub fn young(created_at: Duration, now: Duration) -> (yes: bool)
    ensures
        yes == is_young(created_at, now),
{
    now.saturating_sub(created_at).shorter_than(Duration::from_secs(SESSION_MAX_AGE))
}

/// No sessions yet.
pub fn new_sessions() -> (sessions: ListSessions)
    ensures
        list_contents(sessions).dom() == Set::<u64>::empty(),
{
    empty_map()
}

/// Drops sessions older than `SESSION_MAX_AGE`. Intended to be called
/// periodically.
pub fn sweep_stale(sessions: &mut ListSessions, now: Duration)
    ensures
        forall|id: u64| #[trigger]
            list_contents(*final(sessions)).contains_key(id) <==> list_contents(
                *old(sessions),
            ).contains_key(id) && is_young(list_contents(*old(sessions))[id].created_at, now),
        forall|id: u64|
            list_contents(*final(sessions)).contains_key(id) ==> #[trigger] list_contents(
                *final(sessions),
            )[id] == list_contents(*old(sessions))[id],
{
    retain_young(sessions, now);
}

/// How many pages `n` items take: at least one.
pub open spec fn pages_for(n: nat) -> nat {
    if n == 0 {
        1
    } else {
        (n + PAGE_SIZE as nat - 1) as nat / PAGE_SIZE as nat
    }
}

/// The page that is shown when page `page` is asked for: no further than the
/// last one.
pub open spec fn shown_page(n: nat, page: nat) -> nat {
    if page < pages_for(n) {
        page
    } else {
        (pages_for(n) - 1) as nat
    }
}

/// The index of a page's first item.
pub open spec fn page_start(n: nat, page: nat) -> nat {
    let start = shown_page(n, page) * PAGE_SIZE as nat;
    if start <= n {
        start
    } else {
        n
    }
}

/// The index after a page's last item.
pub open spec fn page_end(n: nat, page: nat) -> nat {
    let end = page_start(n, page) + PAGE_SIZE as nat;
    if end <= n {
        end
    } else {
        n
    }
}

/// A page's items.
pub open spec fn page_items<T>(items: Seq<T>, page: nat) -> Seq<T> {
    items.subrange(page_start(items.len(), page) as int, page_end(items.len(), page) as int)
}

/// How many pages `n` items take.
pub fn page_count(n: usize) -> (pages: usize)
    ensures
        pages == pages_for(n as nat),
        1 <= pages,
        pages <= n || pages == 1,
{
    if n == 0 {
        1
    } else {
        (n - 1) / PAGE_SIZE + 1
    }
}

/// The page that is shown when page `page` is asked for, and the indices of
/// its items.
pub fn page_range(n: usize, page: usize) -> (range: (usize, usize, usize))
    ensures
        range.0 == shown_page(n as nat, page as nat),
        range.1 == page_start(n as nat, page as nat),
        range.2 == page_end(n as nat, page as nat),
        range.0 < pages_for(n as nat),
        range.1 <= range.2 <= n,
{
    let pages: usize = page_count(n);
    let shown: usize = if page < pages {
        page
    } else {
        pages - 1
    };
    let start: usize = shown * PAGE_SIZE;
    let end: usize = if n - start >= PAGE_SIZE {
        start + PAGE_SIZE
    } else {
        n
    };
    (shown, start, end)
}

/// How many pages the lines take.
pub fn total_pages(lines: &Vec<String>) -> (pages: usize)
    ensures
        pages == pages_for(lines@.len()),
{
    page_count(lines.len())
}

/// The embed that shows a page of a list.
pub open spec fn list_embed(session: ListSessionView, page: nat) -> EmbedView {
    EmbedView {
        title: session.title,
        description: if session.lines.len() == 0 {
            "This playlist is empty."@
        } else {
            text::joined(page_items(session.lines, page), "\n"@)
        },
        fields: Seq::empty(),
        footer: Some(session.footer),
        colour: session.color,
        thumbnail: None,
    }
}

/// Builds the embed that shows a page of a list.
pub fn build_embed(session: &ListSession, page: usize) -> (embed: Embed)
    ensures
        embed@ == list_embed(session@, page as nat),
{
    let description = if session.lines.len() == 0 {
        "This playlist is empty.".to_owned()
    } else {
        let (shown, start, end): (usize, usize, usize) = page_range(session.lines.len(), page);
        let mut shown_lines: Vec<String> = Vec::new();
        let mut i: usize = start;
        assert(text::texts(shown_lines@) =~= session@.lines.subrange(start as int, i as int));
        while i < end
            invariant
                start <= i <= end <= session.lines@.len(),
                text::texts(shown_lines@) == session@.lines.subrange(start as int, i as int),
            decreases end - i,
        {
            push_text(&mut shown_lines, session.lines[i].as_str());
            assert(text::texts(shown_lines@) =~= session@.lines.subrange(start as int, i + 1));
            i += 1;
        }
        join(&shown_lines, "\n")
    };
    let fields: Vec<EmbedField> = Vec::new();
    assert(fields@.map_values(|f: EmbedField| f@) =~= Seq::<EmbedFieldView>::empty());
    Embed {
        title: session.title.clone(),
        description,
        fields,
        footer: Some(session.footer.clone()),
        colour: session.color,
        thumbnail: None,
    }
}

/// The buttons below a page of a list of `n` items.
pub open spec fn list_rows(n: nat, page: nat) -> Seq<ActionRowView> {
    let pages = pages_for(n);
    let shown = shown_page(n, page);
    seq![
        ActionRowView::Buttons(
            seq![
                ButtonView {
                    custom_id: ids::prev_id(
                        if shown == 0 {
                            0
                        } else {
                            (shown - 1) as nat
                        },
                    ),
                    label: Some("⏪"@),
                    emoji: None,
                    style: ButtonStyle::Secondary,
                    disabled: shown == 0,
                },
                ButtonView {
                    custom_id: ids::NOOP@,
                    label: Some(
                        "Page "@ + text::nat_text(shown + 1) + "/"@ + text::nat_text(pages),
                    ),
                    emoji: None,
                    style: ButtonStyle::Secondary,
                    disabled: true,
                },
                ButtonView {
                    custom_id: ids::next_id(
                        if shown + 1 < pages {
                            shown + 1
                        } else {
                            (pages - 1) as nat
                        },
                    ),
                    label: Some("⏩"@),
                    emoji: None,
                    style: ButtonStyle::Secondary,
                    disabled: shown + 1 >= pages,
                },
            ],
        ),
    ]
}

/// Builds the buttons below a page of a list.
pub fn build_components(lines: &Vec<String>, page: usize) -> (rows: Vec<ActionRow>)
    ensures
        discord::rows(rows@) == list_rows(lines@.len(), page as nat),
{
    let pages: usize = total_pages(lines);
    let (shown, start, end): (usize, usize, usize) = page_range(lines.len(), page);
    let mut label = "Page ".to_owned();
    label.append(nat_string(shown as u64 + 1).as_str());
    label.append("/");
    label.append(nat_string(pages as u64).as_str());
    let last: bool = shown == pages - 1;
    let mut buttons: Vec<Button> = Vec::new();
    buttons.push(
        Button {
            custom_id: ids::prev(shown.saturating_sub(1)),
            label: Some("⏪".to_owned()),
            emoji: None,
            style: ButtonStyle::Secondary,
            disabled: shown == 0,
        },
    );
    buttons.push(
        Button {
            custom_id: ids::NOOP.to_owned(),
            label: Some(label),
            emoji: None,
            style: ButtonStyle::Secondary,
            disabled: true,
        },
    );
    buttons.push(
        Button {
            custom_id: ids::next(
                if last {
                    shown
                } else {
                    shown + 1
                },
            ),
            label: Some("⏩".to_owned()),
            emoji: None,
            style: ButtonStyle::Secondary,
            disabled: last,
        },
    );
    let ghost expected = list_rows(lines@.len(), page as nat);
    assert(buttons@.map_values(|b: Button| b@) =~= expected[0]->Buttons_0);
    let mut rows: Vec<ActionRow> = Vec::new();
    rows.push(ActionRow::Buttons(buttons));
    assert(discord::rows(rows@) =~= expected);
    rows
}

/// A list's embed and buttons.
#[derive(Debug, PartialEq, Eq)]
pub struct ListPage {
    pub embed: Embed,
    pub components: Vec<ActionRow>,
}

/// Starts a paginated list: its session, and its first page. The session has
/// to be registered once the message that shows the page is known.
pub fn send_paginated(listing: Listing, now: Duration) -> (list: (ListSession, ListPage))
    ensures
        list.0@ == (ListSessionView {
            title: listing.title@,
            color: listing.color,
            lines: text::texts(listing.lines@),
            footer: listing.footer@,
            created_at: now,
        }),
        list.1.embed@ == list_embed(list.0@, 0),
        discord::rows(list.1.components@) == list_rows(listing.lines@.len(), 0),
{
    let session = ListSession {
        title: listing.title,
        color: listing.color,
        lines: listing.lines,
        footer: listing.footer,
        created_at: now,
    };
    let page = ListPage {
        embed: build_embed(&session, 0),
        components: build_components(&session.lines, 0),
    };
    (session, page)
}

/// Registers a list's session under the message that shows it, so that later
/// presses can look the full list back up.
pub fn register(sessions: &mut ListSessions, message_id: u64, session: ListSession)
    ensures
        list_contents(*final(sessions)) == list_contents(*old(sessions)).insert(
            message_id,
            session@,
        ),
{
    insert_session(sessions, message_id, session);
}

/// What a press below a list calls for.
#[derive(Debug, PartialEq, Eq)]
pub enum ListPress {
    /// It is not one of the buttons that lead anywhere: no answer at all.
    Ignore,
    /// The list is no longer known: it is acknowledged, and that is all.
    Acknowledge,
    /// The message shows this page from now on.
    Update(ListPage),
}

/// Handles a press of a button below a list.
pub fn handle_component_interaction(
    custom_id: &str,
    message_id: u64,
    sessions: &ListSessions,
) -> (press: ListPress)
    ensures
        match press {
            ListPress::Ignore => ids::page_of(custom_id@) is None,
            ListPress::Acknowledge => ids::page_of(custom_id@) is Some && !list_contents(
                *sessions,
            ).contains_key(message_id),
            ListPress::Update(shown) => {
                &&& ids::page_of(custom_id@) is Some
                &&& list_contents(*sessions).contains_key(message_id)
                &&& ({
                    let session = list_contents(*sessions)[message_id];
                    let page = ids::page_of(custom_id@)->0;
                    shown.embed@ == list_embed(session, page) && discord::rows(shown.components@)
                        == list_rows(session.lines.len(), page)
                })
            },
        },
{
    let page: usize = match ids::target_page(custom_id) {
        Some(page) => page,
        None => {
            return ListPress::Ignore;
        },
    };
    match get_session(sessions, message_id) {
        Some(session) => ListPress::Update(
            ListPage {
                embed: build_embed(&session, page),
                components: build_components(&session.lines, page),
            },
        ),
        None => ListPress::Acknowledge,
    }
}

/// The items of the first `k` pages.
pub open spec fn first_pages<T>(items: Seq<T>, k: nat) -> Seq<T>
    decreases k,
{
    if k == 0 {
        Seq::empty()
    } else {
        first_pages(items, (k - 1) as nat) + page_items(items, (k - 1) as nat)
    }
}

/// Paging through a list from the first page to the last shows every item
/// once, in order.
pub proof fn law_pages_cover_the_list<T>(items: Seq<T>)
    ensures
        first_pages(items, pages_for(items.len())) == items,
{
    lemma_first_pages(items, pages_for(items.len()));
}

proof fn lemma_first_pages<T>(items: Seq<T>, k: nat)
    requires
        k <= pages_for(items.len()),
    ensures
        first_pages(items, k) == items.take(
            if k * PAGE_SIZE <= items.len() {
                (k * PAGE_SIZE) as int
            } else {
                items.len() as int
            },
        ),
    decreases k,
{
    if k > 0 {
        lemma_first_pages(items, (k - 1) as nat);
        let upto = items.take(
            if k * PAGE_SIZE <= items.len() {
                (k * PAGE_SIZE) as int
            } else {
                items.len() as int
            },
        );
        assert(first_pages(items, k) =~= upto);
    } else {
        assert(items.take(0) =~= Seq::<T>::empty());
    }
}

/// No page holds more than `PAGE_SIZE` items, and a page other than the
/// last is full.
pub proof fn law_pages_are_full<T>(items: Seq<T>, page: nat)
    requires
        page < pages_for(items.len()),
    ensures
        page_items(items, page).len() <= PAGE_SIZE,
        page + 1 < pages_for(items.len()) ==> page_items(items, page).len() == PAGE_SIZE,
        items.len() > 0 ==> page_items(items, page).len() > 0,
{
}

/// The buttons of a page never share a custom id, not even those of a list
/// with a single page; and previous and next are out of reach exactly at the
/// list's ends.
pub proof fn law_buttons_are_distinct(n: nat, page: nat)
    ensures
        ({
            let buttons = list_rows(n, page)[0]->Buttons_0;
            &&& buttons[0].custom_id != buttons[1].custom_id
            &&& buttons[0].custom_id != buttons[2].custom_id
            &&& buttons[1].custom_id != buttons[2].custom_id
            &&& buttons[0].disabled == (shown_page(n, page) == 0)
            &&& buttons[2].disabled == (shown_page(n, page) == pages_for(n) - 1)
        }),
{
    let shown = shown_page(n, page);
    let back = if shown == 0 {
        0
    } else {
        (shown - 1) as nat
    };
    let on = if shown + 1 < pages_for(n) {
        shown + 1
    } else {
        (pages_for(n) - 1) as nat
    };
    ids::law_ids_never_collide(back, on);
}

/// A page's items are the ones from ten times its number on, in order, and
/// asking for a page past the end shows the last one.
pub proof fn law_page_holds_its_items<T>(items: Seq<T>, page: nat, k: int)
    requires
        0 <= k < page_items(items, page).len(),
    ensures
        page * 10 < items.len() ==> page * 10 + k < items.len() && page_items(items, page)[k]
            == items[page * 10 + k],
        page * 10 >= items.len() ==> {
            let last = (items.len() - 1) / 10;
            last * 10 + k < items.len() && page_items(items, page)[k] == items[last * 10 + k]
        },
{
}

/// Ten items make a page, and even an empty list has one; the page that is
/// shown is the one asked for, or else the last.
pub proof fn law_pages_are_counted(n: nat, page: nat)
    ensures
        pages_for(n) >= 1,
        n > 0 ==> (pages_for(n) - 1) * 10 < n <= pages_for(n) * 10,
        n == 0 ==> pages_for(n) == 1,
        page < pages_for(n) ==> shown_page(n, page) == page,
        page >= pages_for(n) ==> shown_page(n, page) + 1 == pages_for(n),
        page_start(n, page) <= page_end(n, page) <= n,
        page_start(n, page) == shown_page(n, page) * 10,
        page_end(n, page) == n || page_end(n, page) == page_start(n, page) + 10,
{
}

/// A page of a list shows the list's title and footer and the page's lines,
/// one below the other.
pub proof fn law_list_page_shows_its_lines(session: ListSessionView, page: nat)
    ensures
        ({
            let embed = list_embed(session, page);
            &&& embed.title == session.title
            &&& embed.footer == Some(session.footer)
            &&& embed.colour == session.color
            &&& embed.fields.len() == 0
            &&& embed.thumbnail is None
            &&& session.lines.len() == 0 ==> embed.description == "This playlist is empty."@
            &&& session.lines.len() > 0 ==> embed.description == text::joined(
                session.lines.subrange(
                    page_start(session.lines.len(), page) as int,
                    page_end(session.lines.len(), page) as int,
                ),
                "\n"@,
            )
        }),
{
}

/// Previous and next lead to the neighbouring pages, and the middle says
/// which page of how many is shown.
pub proof fn law_list_buttons_lead_to_the_neighbours(n: nat, page: nat)
    requires
        n <= usize::MAX,
    ensures
        ({
            let rows = list_rows(n, page);
            let buttons = rows[0]->Buttons_0;
            let shown = shown_page(n, page);
            &&& rows.len() == 1
            &&& rows[0] is Buttons
            &&& buttons.len() == 3
            &&& shown > 0 ==> !buttons[0].disabled && ids::page_of(buttons[0].custom_id) == Some(
                (shown - 1) as nat,
            )
            &&& shown == 0 ==> buttons[0].disabled
            &&& shown + 1 < pages_for(n) ==> !buttons[2].disabled && ids::page_of(
                buttons[2].custom_id,
            ) == Some((shown + 1) as nat)
            &&& shown + 1 >= pages_for(n) ==> buttons[2].disabled
            &&& buttons[1].disabled
            &&& buttons[1].custom_id == "listpage:noop"@
            &&& buttons[1].label == Some(
                "Page "@ + text::nat_text((shown + 1) as nat) + "/"@ + text::nat_text(pages_for(n)),
            )
            &&& buttons[0].label == Some("⏪"@)
            &&& buttons[2].label == Some("⏩"@)
            &&& forall|i: int|
                0 <= i < 3 ==> (#[trigger] buttons[i]).style == ButtonStyle::Secondary
                    && buttons[i].emoji is None
        }),
{
    let shown = shown_page(n, page);
    if shown > 0 {
        ids::law_ids_lead_to_their_page((shown - 1) as usize);
    }
    if shown + 1 < pages_for(n) {
        ids::law_ids_lead_to_their_page((shown + 1) as usize);
    }
}

/// A session is kept for a quarter of an hour, and no longer.
pub proof fn law_sessions_are_kept_a_quarter_of_an_hour(created_at: Duration, now: Duration)
    ensures
        is_young(created_at, now) <==> now@ < created_at@ + 900_000_000_000,
{
}

/// A list is seen with its own texts and all of its lines, in order, and so
/// is the session that keeps it.
pub proof fn law_lists_are_seen_as_they_are(listing: Listing, session: ListSession, i: int)
    ensures
        listing@.title == listing.title@,
        listing@.color == listing.color,
        listing@.footer == listing.footer@,
        listing@.ephemeral == listing.ephemeral,
        listing@.lines.len() == listing.lines@.len(),
        0 <= i < listing.lines@.len() ==> listing@.lines[i] == listing.lines@[i]@,
        session@.title == session.title@,
        session@.color == session.color,
        session@.footer == session.footer@,
        session@.created_at == session.created_at,
        session@.lines.len() == session.lines@.len(),
        0 <= i < session.lines@.len() ==> session@.lines[i] == session.lines@[i]@,
{
}

} // verus!
