//! Session journals.

use vstd::prelude::*;

use super::keys::{make_session_key, session_key};
use super::{DataStore, Journal, StoreView, StoredEntry, StoredEntryView, StoredEvent};
use crate::api::SessionSeq;
use crate::ids::SessionId;

verus! {

impl StoreView {
    /// The journal of a session; a session without one has an empty journal.
    pub open spec fn history(self, session: SessionId) -> Seq<StoredEntryView> {
        if self.journals.dom().contains(session_key(session)) {
            self.journals[session_key(session)]
        } else {
            Seq::empty()
        }
    }

    /// The store with entries appended to the journal of a session.
    pub open spec fn with_entries(self, session: SessionId, entries: Seq<StoredEntryView>) -> StoreView {
        StoreView {
            journals: self.journals.insert(session_key(session), self.history(session) + entries),
            ..self
        }
    }
}

impl DataStore {
    /// The last sequence of a session's journal, zero where it is empty.
    pub fn history_through(&self, session: SessionId) -> (r: SessionSeq)
        ensures
            r.0 == self@.history(session).len(),
    {
        match self.journals.get(&make_session_key(session)) {
            Some(journal) => {
                let n: usize = journal.entries.len();
                SessionSeq(n as u64)
            },
            None => SessionSeq(0),
        }
    }

    /// Appends an event to the journal of a session and returns its sequence.
    pub(crate) fn append(&mut self, session: SessionId, event: StoredEvent, now: i64) -> (r: SessionSeq)
        ensures
            final(self)@ == old(self)@.with_entries(
                session,
                seq![StoredEntryView { occurred_at: now, event: event@ }],
            ),
            r.0 == old(self)@.history(session).len() + 1,
    {
        let key = make_session_key(session);
        let ghost before = self.journals@;
        let mut journal = match self.journals.take(&key) {
            Some(journal) => journal,
            None => Journal { entries: Vec::new() },
        };
        let ghost earlier = journal@;
        let entry = StoredEntry { occurred_at: now, event };
        let ghost added = entry@;
        journal.entries.push(entry);
        let n: usize = journal.entries.len();
        proof {
            assert(journal@ =~= earlier + seq![added]);
            if before.dom().contains(key) {
                assert(earlier == old(self)@.history(session));
            } else {
                assert(earlier =~= Seq::<StoredEntryView>::empty());
            }
        }
        self.journals.put(key, journal);
        proof {
            assert(self@.journals =~= old(self)@.journals.insert(key, earlier + seq![added]));
            assert(self@ =~= old(self)@.with_entries(session, seq![added]));
        }
        SessionSeq(n as u64)
    }
}

} // verus!
