//! Offset pagination: which neighbouring pages exist and where they start.
use vstd::prelude::*;

verus! {

/// The neighbours of a page of `limit` records starting at `offset`.
#[derive(Debug, Clone, Copy, PartialEq, Eq, Structural)]
pub struct PagePlan {
    pub has_previous: bool,
    pub previous_offset: u64,
    pub has_next: bool,
    pub next_offset: u64,
}

/// A next page exists when the total count is known and lies beyond this page,
/// or, with no count, when this page came back full.
pub open spec fn has_next_spec(limit: u64, offset: u64, number_matched: Option<u64>, number_returned: u64) -> bool {
    match number_matched {
        Some(m) => offset + limit < m,
        None => number_returned == limit && offset + limit <= u64::MAX,
    }
}

pub open spec fn plan_spec(limit: Option<u64>, offset: u64, number_matched: Option<u64>, number_returned: u64) -> Option<PagePlan> {
    match limit {
        None => None,
        Some(l) => Some(
            PagePlan {
                has_previous: offset > 0,
                previous_offset: if offset >= l {
                    (offset - l) as u64
                } else {
                    0
                },
                has_next: has_next_spec(l, offset, number_matched, number_returned),
                next_offset: if offset + l <= u64::MAX {
                    (offset + l) as u64
                } else {
                    u64::MAX
                },
            },
        ),
    }
}

/// Plans the pagination links; there are none without a `limit`.
/// `number_returned` is the size of the page that came back, consulted only
/// when the total count is unknown.
pub fn plan(limit: Option<u64>, offset: u64, number_matched: Option<u64>, number_returned: u64) -> (r: Option<PagePlan>)
    ensures
        r == plan_spec(limit, offset, number_matched, number_returned),
{
    match limit {
        None => None,
        Some(l) => {
            let has_next = match number_matched {
                Some(m) => offset < m && l < m - offset,
                None => number_returned == l && l <= u64::MAX - offset,
            };
            Some(
                PagePlan {
                    has_previous: offset > 0,
                    previous_offset: offset.saturating_sub(l),
                    has_next,
                    next_offset: offset.saturating_add(l),
                },
            )
        },
    }
}

/// The next page starts right after this one and the previous one a page
/// before it, never before the first record; the first page has no previous
/// page, and a known count that this page reaches leaves no next page.
pub proof fn law_plan_neighbours(limit: u64, offset: u64, number_matched: Option<u64>, number_returned: u64)
    ensures
        ({
            let p = plan_spec(Some(limit), offset, number_matched, number_returned).unwrap();
            &&& p.has_next ==> p.next_offset == offset + limit
            &&& p.has_previous <==> offset > 0
            &&& p.previous_offset + limit >= offset
            &&& p.previous_offset <= offset
            &&& (number_matched is Some && offset + limit >= number_matched.unwrap()) ==> !p.has_next
        }),
{
}

} // verus!
