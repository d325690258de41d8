//! Custom ids of a search result's buttons and menu.
//!
//! Previous and next have distinct prefixes so that their ids never collide:
//! with a single page, both buttons would otherwise target page 0 and
//! produce an identical id, which Discord rejects.

use vstd::prelude::*;

use crate::text;
use crate::text::{nat_string, parse_usize, strip_prefix};

verus! {

pub const PREFIX_PREV: &'static str = "search:prev:";

pub const PREFIX_NEXT: &'static str = "search:next:";

pub const SELECT: &'static str = "search:select";

/// The id of the button that leads back to page `n`.
pub open spec fn prev_id(n: nat) -> Seq<char> {
    PREFIX_PREV@ + text::nat_text(n)
}

/// The id of the button that leads on to page `n`.
pub open spec fn next_id(n: nat) -> Seq<char> {
    PREFIX_NEXT@ + text::nat_text(n)
}

/// What follows either prefix in an id.
pub open spec fn page_part(id: Seq<char>) -> Option<Seq<char>> {
    if text::has_prefix(id, PREFIX_PREV@) {
        Some(id.skip(PREFIX_PREV@.len() as int))
    } else if text::has_prefix(id, PREFIX_NEXT@) {
        Some(id.skip(PREFIX_NEXT@.len() as int))
    } else {
        None
    }
}

/// The page that a button's id leads to: the first one where the id names
/// none.
pub open spec fn page_of(id: Seq<char>) -> Option<nat> {
    match page_part(id) {
        Some(rest) => match text::parsed_number(rest, usize::MAX as nat) {
            Some(n) => Some(n),
            None => Some(0),
        },
        None => None,
    }
}

/// The id of the button that leads back to page `n`.
pub fn prev(n: usize) -> (id: String)
    ensures
        id@ == prev_id(n as nat),
{
    let mut id = PREFIX_PREV.to_owned();
    id.append(nat_string(n as u64).as_str());
    id
}

/// The id of the button that leads on to page `n`.
pub fn next(n: usize) -> (id: String)
    ensures
        id@ == next_id(n as nat),
{
    let mut id = PREFIX_NEXT.to_owned();
    id.append(nat_string(n as u64).as_str());
    id
}

/// The page that a button's id leads to, if it is one of the two.
pub fn target_page(id: &str) -> (page: Option<usize>)
    ensures
        page_of(id@) == (match page {
            Some(n) => Some(n as nat),
            None => None,
        }),
{
    let rest = match strip_prefix(id, PREFIX_PREV) {
        Some(rest) => Some(rest),
        None => strip_prefix(id, PREFIX_NEXT),
    };
    match rest {
        Some(number) => match parse_usize(number.as_str()) {
            Some(n) => Some(n),
            None => Some(0),
        },
        None => None,
    }
}

/// The ids of previous, next and the menu never collide, whatever the pages.
pub proof fn law_ids_never_collide(a: nat, b: nat)
    ensures
        prev_id(a) != next_id(b),
        prev_id(a) != SELECT@,
        next_id(b) != SELECT@,
{
    reveal_strlit("search:prev:");
    reveal_strlit("search:next:");
    reveal_strlit("search:select");
    assert(prev_id(a)[7] == 'p');
    assert(next_id(b)[7] == 'n');
    assert(SELECT@[7] == 's');
}

/// Pressing a button leads to the page it was made for.
pub proof fn law_ids_lead_to_their_page(n: usize)
    ensures
        page_of(prev_id(n as nat)) == Some(n as nat),
        page_of(next_id(n as nat)) == Some(n as nat),
        page_of(SELECT@) is None,
{
    reveal_strlit("search:prev:");
    reveal_strlit("search:next:");
    reveal_strlit("search:select");
    text::lemma_parse_nat_text(n as nat, usize::MAX as nat);
    let p = prev_id(n as nat);
    assert(p.take(12) =~= PREFIX_PREV@);
    assert(p.skip(12) =~= text::nat_text(n as nat));
    let q = next_id(n as nat);
    assert(q.take(12) =~= PREFIX_NEXT@);
    assert(q.skip(12) =~= text::nat_text(n as nat));
    assert(q[7] != PREFIX_PREV@[7]);
    assert(SELECT@.subrange(0, 12)[7] != PREFIX_PREV@[7]);
    assert(SELECT@.subrange(0, 12)[7] != PREFIX_NEXT@[7]);
}

/// Ids of other controls lead to no page; these lead to the page behind
/// their prefix, or to the first one if there is no number.
pub proof fn law_other_ids_lead_nowhere(id: Seq<char>)
    ensures
        !text::has_prefix(id, "search:prev:"@) && !text::has_prefix(id, "search:next:"@)
            ==> page_of(id) is None,
        text::has_prefix(id, "search:prev:"@) || text::has_prefix(id, "search:next:"@) ==> (
        match text::parsed_number(id.skip(12), usize::MAX as nat) {
            Some(n) => page_of(id) == Some(n),
            None => page_of(id) == Some(0nat),
        }),
{
    reveal_strlit("search:prev:");
    reveal_strlit("search:next:");
}

} // verus!
