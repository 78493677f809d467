//! Pages of session history.

use vstd::prelude::*;

use super::keys::make_session_key;
use super::projection::{shown, shown_event};
use super::{DataStore, StoreView, StoredEntry, StoredEntryView};
use crate::api::{
    HistoryCursor, HistoryEntry, HistoryPage, RecentHistoryPage, SessionEventView, SessionSeq,
};
use crate::ids::SessionId;

verus! {

/// A history entry by its values.
pub ghost struct HistoryEntryView {
    pub sequence: SessionSeq,
    pub occurred_at: i64,
    pub event: SessionEventView,
}

impl View for HistoryEntry {
    type V = HistoryEntryView;

    open spec fn view(&self) -> HistoryEntryView {
        HistoryEntryView {
            sequence: self.sequence,
            occurred_at: self.occurred_at,
            event: self.event@,
        }
    }
}

/// History entries by their values.
pub open spec fn entry_views(entries: Seq<HistoryEntry>) -> Seq<HistoryEntryView> {
    entries.map_values(|entry: HistoryEntry| entry@)
}

/// The journal entries from place `from` up to place `to` that are shown, with their sequences.
pub open spec fn shown_entries(history: Seq<StoredEntryView>, from: int, to: int) -> Seq<
    HistoryEntryView,
>
    decreases to - from,
{
    if to <= from {
        Seq::empty()
    } else {
        let head = shown_entries(history, from, to - 1);
        match shown(history[to - 1].event) {
            Some(event) => head.push(
                HistoryEntryView {
                    sequence: SessionSeq(to as u64),
                    occurred_at: history[to - 1].occurred_at,
                    event,
                },
            ),
            None => head,
        }
    }
}

/// The smaller of two numbers.
pub open spec fn least(a: int, b: int) -> int {
    if a < b {
        a
    } else {
        b
    }
}

/// A page limit is at least one.
pub open spec fn at_least_one(limit: usize) -> int {
    if limit < 1 {
        1
    } else {
        limit as int
    }
}

/// Where the page behind `after` ends.
pub open spec fn page_end_after(len: int, after: int, limit: int) -> int {
    if after >= len {
        after
    } else {
        least(after + limit, len)
    }
}

/// The places of a page from the recent end: those up to the sequence `last` inside a snapshot
/// through `through`, the last `limit` of them.
pub open spec fn recent_bounds(len: int, last: int, through: int, limit: int) -> (int, int) {
    let end = least(least(last, through), len);
    let start = if end > limit {
        end - limit
    } else {
        0
    };
    (start, end)
}

/// The last sequence before a position.
pub open spec fn before_position(position: SessionSeq) -> int {
    if position.0 < 1 {
        0
    } else {
        position.0 - 1
    }
}

/// Shows the journal entries from place `from` up to place `to`.
fn show_entries(entries: &Vec<StoredEntry>, from: usize, to: usize) -> (r: Vec<HistoryEntry>)
    requires
        from <= to <= entries@.len(),
    ensures
        entry_views(r@) == shown_entries(
            entries@.map_values(|entry: StoredEntry| entry@),
            from as int,
            to as int,
        ),
{
    let ghost views = entries@.map_values(|entry: StoredEntry| entry@);
    let mut r: Vec<HistoryEntry> = Vec::new();
    let mut i: usize = from;
    proof {
        assert(entry_views(r@) =~= shown_entries(views, from as int, from as int));
    }
    while i < to
        invariant
            from <= i <= to <= entries@.len(),
            views == entries@.map_values(|entry: StoredEntry| entry@),
            entry_views(r@) == shown_entries(views, from as int, i as int),
        decreases to - i,
    {
        proof {
            assert(views[i as int] == entries@[i as int]@);
        }
        let ghost earlier = r@;
        match shown_event(&entries[i].event) {
            Some(event) => {
                let entry = HistoryEntry {
                    sequence: SessionSeq(i as u64 + 1),
                    occurred_at: entries[i].occurred_at,
                    event,
                };
                let ghost entry_view = entry@;
                r.push(entry);
                proof {
                    assert(r@.drop_last() =~= earlier);
                    assert(entry_views(r@) =~= entry_views(earlier).push(entry_view));
                }
            },
            None => {},
        }
        i = i + 1;
    }
    r
}

impl StoreView {
    /// Whether a page shows the history of a session after a position.
    pub open spec fn shows_history(
        self,
        session: SessionId,
        after: SessionSeq,
        limit: usize,
        page: HistoryPage,
    ) -> bool {
        let history = self.history(session);
        let end = page_end_after(
            history.len() as int,
            after.0 as int,
            at_least_one(limit),
        );
        if after.0 > i64::MAX {
            &&& page.items@ == Seq::<HistoryEntry>::empty()
            &&& page.next_cursor == after
            &&& !page.has_more
        } else {
            &&& entry_views(page.items@) == shown_entries(history, after.0 as int, end)
            &&& page.next_cursor.0 == end
            &&& page.has_more == (end < history.len())
        }
    }

    /// Whether a page shows the recent history of a session, or what stands before a cursor.
    pub open spec fn shows_recent_history(
        self,
        session: SessionId,
        cursor: Option<HistoryCursor>,
        limit: usize,
        page: RecentHistoryPage,
    ) -> bool {
        let history = self.history(session);
        let through = match cursor {
            Some(cursor) => cursor.through.0 as int,
            None => history.len() as int,
        };
        let last = match cursor {
            Some(cursor) => before_position(cursor.before),
            None => history.len() as int,
        };
        let (start, end) = recent_bounds(
            history.len() as int,
            last,
            through,
            at_least_one(limit),
        );
        &&& entry_views(page.items@) == shown_entries(history, start, end)
        &&& page.snapshot_through.0 == through
        &&& page.older_cursor == (if start > 0 {
            Some(
                HistoryCursor {
                    session,
                    before: SessionSeq((start + 1) as u64),
                    through: SessionSeq(through as u64),
                },
            )
        } else {
            None
        })
    }
}

impl DataStore {
    /// The page of history behind a position, at most `limit` journal entries of it.
    pub fn history(&self, session: SessionId, after: SessionSeq, limit: usize) -> (r: HistoryPage)
        ensures
            self@.shows_history(session, after, limit, r),
    {
        if after.0 > i64::MAX as u64 {
            return HistoryPage { items: Vec::new(), next_cursor: after, has_more: false };
        }
        let wanted: usize = if limit < 1 {
            1
        } else {
            limit
        };
        match self.journals.get(&make_session_key(session)) {
            Some(journal) => {
                let n: usize = journal.entries.len();
                proof {
                    assert(self@.history(session).len() == n);
                }
                if after.0 >= n as u64 {
                    let items: Vec<HistoryEntry> = Vec::new();
                    proof {
                        assert(entry_views(items@) =~= Seq::<HistoryEntryView>::empty());
                    }
                    return HistoryPage { items, next_cursor: after, has_more: false };
                }
                let from: usize = after.0 as usize;
                let end: usize = if wanted < n - from {
                    from + wanted
                } else {
                    n
                };
                HistoryPage {
                    items: show_entries(&journal.entries, from, end),
                    next_cursor: SessionSeq(end as u64),
                    has_more: end < n,
                }
            },
            None => {
                let items: Vec<HistoryEntry> = Vec::new();
                proof {
                    assert(entry_views(items@) =~= Seq::<HistoryEntryView>::empty());
                }
                HistoryPage { items, next_cursor: after, has_more: false }
            },
        }
    }

    /// The places of a page from the recent end of a journal.
    pub(crate) fn recent_places(
        &self,
        session: SessionId,
        last: u64,
        through: u64,
        limit: usize,
    ) -> (r: (usize, usize))
        requires
            limit >= 1,
        ensures
            (r.0 as int, r.1 as int) == recent_bounds(
                self@.history(session).len() as int,
                last as int,
                through as int,
                limit as int,
            ),
            r.0 <= r.1 <= self@.history(session).len(),
    {
        let n: u64 = self.history_through(session).0;
        let bounded: u64 = if last < through {
            last
        } else {
            through
        };
        let end: u64 = if bounded < n {
            bounded
        } else {
            n
        };
        let mut count: usize = 0;
        match self.journals.get(&make_session_key(session)) {
            Some(journal) => {
                count = journal.entries.len();
            },
            None => {},
        }
        proof {
            assert(end <= count);
        }
        let stop: usize = end as usize;
        let start: usize = if stop > limit {
            stop - limit
        } else {
            0
        };
        (start, stop)
    }

    /// A page from the recent end of history: without a cursor the newest one, else the one that
    /// the cursor of a page points to. A cursor stays inside its snapshot.
    pub fn recent_history(
        &self,
        session: SessionId,
        cursor: Option<HistoryCursor>,
        limit: usize,
    ) -> (r: RecentHistoryPage)
        ensures
            self@.shows_recent_history(session, cursor, limit, r),
    {
        let wanted: usize = if limit < 1 {
            1
        } else {
            limit
        };
        let newest = self.history_through(session);
        let through = match cursor {
            Some(cursor) => cursor.snapshot_through(),
            None => newest,
        };
        let last: u64 = match cursor {
            Some(cursor) => if cursor.before().0 < 1 {
                0
            } else {
                cursor.before().0 - 1
            },
            None => newest.0,
        };
        let (start, end) = self.recent_places(session, last, through.0, wanted);
        let items = match self.journals.get(&make_session_key(session)) {
            Some(journal) => show_entries(&journal.entries, start, end),
            None => {
                let none: Vec<HistoryEntry> = Vec::new();
                proof {
                    assert(entry_views(none@) =~= Seq::<HistoryEntryView>::empty());
                }
                none
            },
        };
        RecentHistoryPage {
            items,
            older_cursor: if start > 0 {
                Some(HistoryCursor::new(session, SessionSeq(start as u64 + 1), through))
            } else {
                None
            },
            snapshot_through: through,
        }
    }
}

/// Pages of shown entries that meet at a place join to the shown entries of the whole range.
pub proof fn law_adjacent_pages_join(
    history: Seq<StoredEntryView>,
    from: int,
    middle: int,
    to: int,
)
    requires
        from <= middle <= to,
    ensures
        shown_entries(history, from, middle) + shown_entries(history, middle, to)
            == shown_entries(history, from, to),
    decreases to - middle,
{
    if middle < to {
        law_adjacent_pages_join(history, from, middle, to - 1);
        assert(shown_entries(history, from, middle) + shown_entries(history, middle, to)
            =~= shown_entries(history, from, to));
    } else {
        assert(shown_entries(history, from, middle) + Seq::<HistoryEntryView>::empty()
            =~= shown_entries(history, from, middle));
    }
}

/// A page of older history does not change when entries are appended to the journal.
pub proof fn law_appends_leave_snapshots(
    history: Seq<StoredEntryView>,
    added: Seq<StoredEntryView>,
    last: int,
    through: int,
    limit: int,
)
    requires
        0 <= last,
        0 <= through <= history.len(),
        limit >= 1,
    ensures
        ({
            let longer = history + added;
            let (start, end) = recent_bounds(history.len() as int, last, through, limit);
            &&& recent_bounds(longer.len() as int, last, through, limit) == (start, end)
            &&& shown_entries(longer, start, end) == shown_entries(history, start, end)
        }),
{
    let (start, end) = recent_bounds(history.len() as int, last, through, limit);
    lemma_shown_prefix(history, added, start, end);
}

/// What is shown of a range does not depend on entries behind it.
proof fn lemma_shown_prefix(
    history: Seq<StoredEntryView>,
    added: Seq<StoredEntryView>,
    from: int,
    to: int,
)
    requires
        0 <= from,
        to <= history.len(),
    ensures
        shown_entries(history + added, from, to) == shown_entries(history, from, to),
    decreases to - from,
{
    if from < to {
        lemma_shown_prefix(history, added, from, to - 1);
        assert((history + added)[to - 1] == history[to - 1]);
    }
}

/// The page that a cursor of a page points to ends where that page starts.
pub proof fn law_older_page_is_adjacent(len: int, last: int, through: int, limit: int, next: int)
    requires
        0 <= last,
        0 <= through,
        0 <= len,
        limit >= 1,
        next >= 1,
        recent_bounds(len, last, through, limit).0 > 0,
    ensures
        ({
            let start = recent_bounds(len, last, through, limit).0;
            recent_bounds(len, start, through, next).1 == start
        }),
{
}

} // verus!
