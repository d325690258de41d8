//! Custom ids of a paginated list's buttons.
//!
//! Previous and next have distinct prefixes so that their ids never collide:
//! with a single page, both buttons would otherwise target page 0 and
//! produce an identical id, which Discord rejects.

use vstd::prelude::*;

use crate::text;
use crate::text::{nat_string, parse_usize, strip_prefix};

verus! {

pub const PREFIX_PREV: &'static str = "listpage:prev:";

pub const PREFIX_NEXT: &'static str = "listpage:next:";

pub const NOOP: &'static str = "listpage:noop";

/// The id of the button that leads back to page `n`.
pub open spec fn prev_id(n: nat) -> Seq<char> {
    PREFIX_PREV@ + text::nat_text(n)
}

/// The id of the button that leads on to page `n`.
pub open spec fn next_id(n: nat) -> Seq<char> {
    PREFIX_NEXT@ + text::nat_text(n)
}

/// What follows either prefix in an id.
pub open spec fn page_part(id: Seq<char>) -> Option<Seq<char>> {
    if text::has_prefix(id, PREFIX_PREV@) {
        Some(id.skip(PREFIX_PREV@.len() as int))
    } else if text::has_prefix(id, PREFIX_NEXT@) {
        Some(id.skip(PREFIX_NEXT@.len() as int))
    } else {
        None
    }
}

/// The page that a button's id leads to.
pub open spec fn page_of(id: Seq<char>) -> Option<nat> {
    match page_part(id) {
        Some(rest) => text::parsed_number(rest, usize::MAX as nat),
        None => None,
    }
}

/// The id of the button that leads back to page `n`.
pub fn prev(n: usize) -> (id: String)
    ensures
        id@ == prev_id(n as nat),
{
    let mut id = PREFIX_PREV.to_owned();
    id.append(nat_string(n as u64).as_str());
    id
}

/// The id of the button that leads on to page `n`.
pub fn next(n: usize) -> (id: String)
    ensures
        id@ == next_id(n as nat),
{
    let mut id = PREFIX_NEXT.to_owned();
    id.append(nat_string(n as u64).as_str());
    id
}

/// The page that a button's id leads to, if it is one of the two.
pub fn target_page(id: &str) -> (page: Option<usize>)
    ensures
        page_of(id@) == (match page {
            Some(n) => Some(n as nat),
            None => None,
        }),
{
    let rest = match strip_prefix(id, PREFIX_PREV) {
        Some(rest) => Some(rest),
        None => strip_prefix(id, PREFIX_NEXT),
    };
    match rest {
        Some(number) => parse_usize(number.as_str()),
        None => None,
    }
}

/// The ids of previous, next and the page indicator never collide, whatever
/// the pages.
pub proof fn law_ids_never_collide(a: nat, b: nat)
    ensures
        prev_id(a) != next_id(b),
        prev_id(a) != NOOP@,
        next_id(b) != NOOP@,
{
    reveal_strlit("listpage:prev:");
    reveal_strlit("listpage:next:");
    reveal_strlit("listpage:noop");
    assert(prev_id(a)[9] == 'p');
    assert(next_id(b)[9] == 'n');
    assert(prev_id(a).len() >= 14);
    assert(next_id(b).len() >= 14);
    assert(NOOP@.len() == 13);
}

/// Pressing a button leads to the page it was made for.
pub proof fn law_ids_lead_to_their_page(n: usize)
    ensures
        page_of(prev_id(n as nat)) == Some(n as nat),
        page_of(next_id(n as nat)) == Some(n as nat),
        page_of(NOOP@) is None,
{
    reveal_strlit("listpage:prev:");
    reveal_strlit("listpage:next:");
    reveal_strlit("listpage:noop");
    text::lemma_parse_nat_text(n as nat, usize::MAX as nat);
    let p = prev_id(n as nat);
    assert(p.take(14) =~= PREFIX_PREV@);
    assert(p.skip(14) =~= text::nat_text(n as nat));
    let q = next_id(n as nat);
    assert(q.take(14) =~= PREFIX_NEXT@);
    assert(q.skip(14) =~= text::nat_text(n as nat));
    assert(q[9] != PREFIX_PREV@[9]);
    assert(NOOP@.len() == 13);
}

/// Ids of other controls lead to no page, and neither do these with anything
/// but a number behind their prefix.
pub proof fn law_other_ids_lead_nowhere(id: Seq<char>)
    ensures
        !text::has_prefix(id, "listpage:prev:"@) && !text::has_prefix(id, "listpage:next:"@)
            ==> page_of(id) is None,
        text::has_prefix(id, "listpage:prev:"@) ==> page_of(id) == text::parsed_number(
            id.skip(14),
            usize::MAX as nat,
        ),
        text::has_prefix(id, "listpage:next:"@) ==> page_of(id) == text::parsed_number(
            id.skip(14),
            usize::MAX as nat,
        ),
{
    reveal_strlit("listpage:prev:");
    reveal_strlit("listpage:next:");
}

} // verus!
