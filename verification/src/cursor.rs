//! The orphan cursor: pagination of the index for orphan rows, ordered by
//! ascending row identifier, resumed strictly after the last identifier seen.
//!
//! The cursor is exhausted only when a page comes back empty; a short but
//! non-empty page still advances it and is dispatched, so a scan over N
//! non-empty pages issues N + 1 queries.

use vstd::prelude::*;
use crate::tasks::OrphanRecord;

verus! {

/// Upper bound on the size of one page, the unit of work of one extraction
/// task.
pub const CHUNK_SIZE: usize = 100;

/// Cursor state: the identifier to resume after, and how many orphans the
/// run has seen (used only to short-circuit a run that found none).
pub struct OrphanCursor {
    pub last_id: Option<i32>,
    pub orphans_count: u64,
}

/// Records of one page are in strictly ascending identifier order.
pub open spec fn page_sorted(page: Seq<OrphanRecord>) -> bool {
    forall|i: int, j: int| 0 <= i < j < page.len() ==> page[i].id < page[j].id
}

/// Every record of the page sits strictly after the cursor position.
pub open spec fn page_after(page: Seq<OrphanRecord>, last_id: Option<i32>) -> bool {
    match last_id {
        Some(l) => forall|i: int| 0 <= i < page.len() ==> page[i].id > l,
        None => true,
    }
}

/// Every record of the page belongs to the given location.
pub open spec fn page_in_location(page: Seq<OrphanRecord>, location_id: i32) -> bool {
    forall|i: int| 0 <= i < page.len() ==> page[i].location_id == location_id
}

/// What the index promises of successive query answers: each page is sorted,
/// within the page bound, restricted to the location, and strictly after the
/// cursor position left by the pages before it.
pub open spec fn pages_ok_from(last_id: Option<i32>, location_id: i32, pages: Seq<Seq<OrphanRecord>>) -> bool
    decreases pages.len(),
{
    pages.len() == 0 || {
        &&& page_sorted(pages[0])
        &&& page_after(pages[0], last_id)
        &&& page_in_location(pages[0], location_id)
        &&& pages[0].len() <= CHUNK_SIZE
        &&& pages_ok_from(
            if pages[0].len() == 0 {
                last_id
            } else {
                Some(pages[0].last().id)
            },
            location_id,
            pages.drop_first(),
        )
    }
}

/// Ghost state of a whole scan: cursor position, counters and the pages that
/// were dispatched, in dispatch order.
pub struct ScanState {
    pub last_id: Option<i32>,
    pub count: nat,
    pub queries: nat,
    pub exhausted: bool,
    pub dispatched: Seq<Seq<OrphanRecord>>,
}

pub open spec fn scan_init() -> ScanState {
    ScanState {
        last_id: None,
        count: 0,
        queries: 0,
        exhausted: false,
        dispatched: Seq::empty(),
    }
}

/// One query answer advances the scan: an empty page exhausts the cursor,
/// a non-empty page is counted and dispatched.
pub open spec fn scan_step(s: ScanState, page: Seq<OrphanRecord>) -> ScanState {
    if s.exhausted {
        s
    } else if page.len() == 0 {
        ScanState {
            last_id: s.last_id,
            count: s.count,
            queries: s.queries + 1,
            exhausted: true,
            dispatched: s.dispatched,
        }
    } else {
        ScanState {
            last_id: Some(page.last().id),
            count: s.count + page.len(),
            queries: s.queries + 1,
            exhausted: false,
            dispatched: s.dispatched.push(page),
        }
    }
}

/// The scan state after consuming a sequence of query answers.
pub open spec fn scan_from(s: ScanState, pages: Seq<Seq<OrphanRecord>>) -> ScanState
    decreases pages.len(),
{
    if pages.len() == 0 {
        s
    } else {
        scan_from(scan_step(s, pages[0]), pages.drop_first())
    }
}

/// The scan over a whole page script, from a fresh cursor.
pub open spec fn scan_of(pages: Seq<Seq<OrphanRecord>>) -> ScanState {
    scan_from(scan_init(), pages)
}

/// Consuming one more page is one more step.
pub proof fn lemma_scan_from_snoc(s: ScanState, pages: Seq<Seq<OrphanRecord>>, page: Seq<OrphanRecord>)
    ensures
        scan_from(s, pages.push(page)) == scan_step(scan_from(s, pages), page),
    decreases pages.len(),
{
    if pages.len() == 0 {
        assert(pages.push(page)[0] == page);
        assert(pages.push(page).drop_first() =~= pages);
        assert(scan_from(s, pages.push(page)) == scan_from(
            scan_step(s, page),
            pages.push(page).drop_first(),
        ));
        assert(scan_from(scan_step(s, page), pages) == scan_step(s, page));
    } else {
        assert(pages.push(page)[0] == pages[0]);
        assert(pages.push(page).drop_first() =~= pages.drop_first().push(page));
        lemma_scan_from_snoc(scan_step(s, pages[0]), pages.drop_first(), page);
    }
}

/// Splitting the page script splits the scan.
pub proof fn lemma_scan_from_concat(
    s: ScanState,
    first: Seq<Seq<OrphanRecord>>,
    rest: Seq<Seq<OrphanRecord>>,
)
    ensures
        scan_from(s, first + rest) == scan_from(scan_from(s, first), rest),
    decreases first.len(),
{
    if first.len() == 0 {
        assert(first + rest =~= rest);
    } else {
        assert((first + rest)[0] == first[0]);
        assert((first + rest).drop_first() =~= first.drop_first() + rest);
        lemma_scan_from_concat(scan_step(s, first[0]), first.drop_first(), rest);
    }
}

/// An exhausted scan no longer moves, whatever else the script holds.
pub proof fn lemma_scan_from_frozen(s: ScanState, pages: Seq<Seq<OrphanRecord>>)
    requires
        s.exhausted,
    ensures
        scan_from(s, pages) == s,
    decreases pages.len(),
{
    if pages.len() > 0 {
        lemma_scan_from_frozen(s, pages.drop_first());
    }
}

impl OrphanCursor {
    /// A cursor at the beginning of the scan: no orphan seen yet.
    pub fn new() -> (c: Self)
        ensures
            c.last_id is None,
            c.orphans_count == 0,
    {
        OrphanCursor { last_id: None, orphans_count: 0 }
    }

    /// Consumes one query answer. Returns true when the page is empty, which
    /// is the only way the cursor is exhausted; a non-empty page advances the
    /// cursor past its last record and counts its orphans.
    pub fn note_page(&mut self, page: &Vec<OrphanRecord>) -> (exhausted: bool)
        requires
            old(self).orphans_count + page@.len() <= u64::MAX,
        ensures
            exhausted == (page@.len() == 0),
            page@.len() == 0 ==> *final(self) == *old(self),
            page@.len() > 0 ==> {
                &&& final(self).last_id == Some(page@.last().id)
                &&& final(self).orphans_count == old(self).orphans_count + page@.len()
            },
    {
        if page.len() == 0 {
            true
        } else {
            let last = page[page.len() - 1];
            self.last_id = Some(last.id);
            self.orphans_count = self.orphans_count + page.len() as u64;
            false
        }
    }
}

} // verus!
