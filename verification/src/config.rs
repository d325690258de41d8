//! What the environment configures, and which part of the bot a component
//! press is for.

use vstd::prelude::*;

use crate::commands::search::ids as search_ids;
use crate::eq::default_hifi_profile;
use crate::pagination::ids as list_ids;
use crate::player::panel::PanelButton;
use crate::text;
use crate::text::{parse_u64, split_whitespace, starts_with, strip_prefix};

verus! {

/// Where the database is kept unless the environment says otherwise.
pub const DEFAULT_DATABASE_URL: &'static str = "sqlite:///var/lib/y4music-rs/data.db";

/// The database's URL, from `DATABASE_URL`.
pub fn database_url(value: Option<String>) -> (url: String)
    ensures
        url@ == (match value {
            Some(v) => v@,
            None => DEFAULT_DATABASE_URL@,
        }),
{
    match value {
        Some(v) => v,
        None => DEFAULT_DATABASE_URL.to_owned(),
    }
}

/// The path of the database's file, if its URL names one.
pub fn database_path(url: &str) -> (path: Option<String>)
    ensures
        text::opt_text(path) == (if text::has_prefix(url@, "sqlite://"@) {
            Some(url@.skip("sqlite://"@.len() as int))
        } else {
            None
        }),
{
    strip_prefix(url, "sqlite://")
}

/// The only guild that commands are synced to, from `TEST_GUILD_ID`; `None`
/// syncs them globally.
pub fn test_guild_id(value: Option<&str>) -> (guild_id: Option<u64>)
    ensures
        match guild_id {
            Some(id) => value is Some && text::parsed_number(value->0@, u64::MAX as nat) == Some(
                id as nat,
            ),
            None => value is None || text::parsed_number(value->0@, u64::MAX as nat) is None,
        },
{
    match value {
        Some(v) => parse_u64(v),
        None => None,
    }
}

/// Extra arguments forwarded to every yt-dlp invocation used for actual
/// playback, from `YTDLP_EXTRA_ARGS` (whitespace-split), empty by default.
pub fn ytdlp_extra_args(value: Option<&str>) -> (args: Vec<String>)
    ensures
        text::texts(args@) == (match value {
            Some(v) => text::words_from(v@, 0),
            None => Seq::empty(),
        }),
{
    match value {
        Some(v) => split_whitespace(v),
        None => {
            let args: Vec<String> = Vec::new();
            assert(text::texts(args@) =~= Seq::<Seq<char>>::empty());
            args
        },
    }
}

/// Hi-Fi mode's ffmpeg `-af` filtergraph, from `EQ_HIFI_FILTER`, falling
/// back to the built-in profile.
pub fn eq_hifi_filter(value: Option<String>) -> (filter: String)
    ensures
        filter@ == (match value {
            Some(v) => v@,
            None => crate::eq::hifi_filter(),
        }),
{
    match value {
        Some(v) => v,
        None => default_hifi_profile().render(),
    }
}

/// Which part of the bot a component press is for.
#[derive(Clone, Copy, Debug, PartialEq, Eq, Structural)]
pub enum Route {
    Search,
    List,
    Panel,
}

/// Which part of the bot the component with this custom id is for.
pub open spec fn route_of(custom_id: Seq<char>) -> Route {
    if text::has_prefix(custom_id, "search:"@) {
        Route::Search
    } else if text::has_prefix(custom_id, "listpage:"@) {
        Route::List
    } else {
        Route::Panel
    }
}

/// Routes a component press by its custom id.
pub fn on_event(custom_id: &str) -> (route: Route)
    ensures
        route == route_of(custom_id@),
{
    if starts_with(custom_id, "search:") {
        Route::Search
    } else if starts_with(custom_id, "listpage:") {
        Route::List
    } else {
        Route::Panel
    }
}

/// Every control reaches the part of the bot that made it.
pub proof fn law_controls_reach_their_owner(page: nat, button: PanelButton)
    ensures
        route_of(search_ids::SELECT@) == Route::Search,
        route_of(search_ids::prev_id(page)) == Route::Search,
        route_of(search_ids::next_id(page)) == Route::Search,
        route_of(list_ids::prev_id(page)) == Route::List,
        route_of(list_ids::next_id(page)) == Route::List,
        route_of(list_ids::NOOP@) == Route::List,
        route_of(button.id()) == Route::Panel,
{
    reveal_strlit("search:");
    reveal_strlit("listpage:");
    reveal_strlit("search:select");
    reveal_strlit("search:prev:");
    reveal_strlit("search:next:");
    reveal_strlit("listpage:prev:");
    reveal_strlit("listpage:next:");
    reveal_strlit("listpage:noop");
    reveal_strlit("np:pause_resume");
    reveal_strlit("np:skip");
    reveal_strlit("np:loop");
    reveal_strlit("np:seek_back");
    reveal_strlit("np:seek_forward");
    reveal_strlit("np:shuffle");
    lemma_starts(search_ids::SELECT@, "search:"@);
    lemma_starts(search_ids::prev_id(page), "search:"@);
    lemma_starts(search_ids::next_id(page), "search:"@);
    lemma_starts(list_ids::prev_id(page), "listpage:"@);
    lemma_starts(list_ids::next_id(page), "listpage:"@);
    lemma_starts(list_ids::NOOP@, "listpage:"@);
    lemma_starts_not(list_ids::prev_id(page), "search:"@);
    lemma_starts_not(list_ids::next_id(page), "search:"@);
    lemma_starts_not(list_ids::NOOP@, "search:"@);
    assert(button.id()[0] == 'n');
    lemma_starts_not(button.id(), "search:"@);
    lemma_starts_not(button.id(), "listpage:"@);
}

proof fn lemma_starts(id: Seq<char>, prefix: Seq<char>)
    requires
        prefix.len() <= id.len(),
        forall|i: int| 0 <= i < prefix.len() ==> #[trigger] id[i] == prefix[i],
    ensures
        text::has_prefix(id, prefix),
{
    assert(id.subrange(0, prefix.len() as int) =~= prefix);
}

proof fn lemma_starts_not(id: Seq<char>, prefix: Seq<char>)
    requires
        prefix.len() > 0,
        id.len() > 0,
        id[0] != prefix[0],
    ensures
        !text::has_prefix(id, prefix),
{
    if text::has_prefix(id, prefix) {
        assert(id.subrange(0, prefix.len() as int)[0] == id[0]);
    }
}

/// A press is for the search or for a list if its id says so, and for the
/// panel otherwise.
pub proof fn law_presses_are_routed_by_prefix(rest: Seq<char>)
    ensures
        route_of("search:"@ + rest) == Route::Search,
        route_of("listpage:"@ + rest) == Route::List,
        !text::has_prefix(rest, "search:"@) && !text::has_prefix(rest, "listpage:"@) ==> route_of(
            rest,
        ) == Route::Panel,
{
    text::law_texts_are_found(Seq::empty(), "search:"@, rest);
    text::law_texts_are_found(Seq::empty(), "listpage:"@, rest);
    reveal_strlit("search:");
    reveal_strlit("listpage:");
    lemma_starts_not("listpage:"@ + rest, "search:"@);
}

} // verus!
