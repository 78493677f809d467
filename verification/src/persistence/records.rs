//! Agent records in the history of a session, and the recovery of a session from them.

use vstd::prelude::*;

use super::evidence::{body_pieces, lemma_bodies_frame};
use super::inputs::lemma_changes;
use super::keys::{make_result_key, make_session_key, make_write_key, result_key, session_key};
use super::projection::{evidence_source_projection, result_at, result_summary, source_of};
use super::{
    DataStore, SavedSessionView, StoreView, StoredEntryView, StoredEvent, StoredEventView,
    StoredResultView, WriteState,
};
use crate::api::{CallRef, EvidenceRef, InputId, InputState, SessionSeq};

use crate::error::StoreError;
use crate::ids::{RuntimeId, SessionId, WorkspaceId};
use crate::record::{ExternalEffect, Record, RecordBody, RecordBodyView, RecordView};

use crate::session::changes::changed;

verus! {

impl StoreView {
    /// The call whose write a record settles: that of a finished tool with a known effect.
    pub open spec fn settles(self, session: SessionId, record: RecordView) -> Option<CallRef> {
        match record.body {
            RecordBodyView::ToolFinished { call, outcome, .. } => if outcome.external_effect
                != ExternalEffect::Unknown {
                self.call_origin(session, call)
            } else {
                None
            },
            _ => None,
        }
    }

    /// The store without the write that a record settles, where that write has returned.
    pub open spec fn with_settled(
        self,
        workspace: WorkspaceId,
        session: SessionId,
        record: RecordView,
    ) -> StoreView {
        match self.settles(session, record) {
            Some(origin) => if self.has_write(workspace, origin) && self.write(
                workspace,
                origin,
            ).state is Finished {
                self.without_write(workspace, origin)
            } else {
                self
            },
            None => self,
        }
    }

    /// The store with a result, where there is one.
    pub open spec fn with_result(self, result: Option<StoredResultView>) -> StoreView {
        match result {
            Some(value) => StoreView {
                results: self.results.insert(
                    result_key(value.result.session, value.result.version),
                    value,
                ),
                ..self
            },
            None => self,
        }
    }

    /// Where the next entry of a session's journal goes.
    pub open spec fn next_seq(self, session: SessionId) -> SessionSeq {
        SessionSeq((self.history(session).len() + 1) as u64)
    }

    /// The store with an agent record in the history of a session.
    pub open spec fn with_record(
        self,
        session: SessionId,
        runtime: RuntimeId,
        record: RecordView,
        changes: Seq<(InputId, InputState)>,
        now: i64,
    ) -> StoreView {
        let saved = self.session(session);
        let stored = StoredEventView::Agent { runtime, record };
        let logged = self.with_changes(session, changes).with_settled(
            saved.info.workspace,
            session,
            record,
        ).with_source(EvidenceRef { session, record: record.seq }, source_of(record)).with_entries(
            session,
            seq![StoredEntryView { occurred_at: now, event: stored }],
        ).with_result(result_at(session, self.next_seq(session), stored));
        StoreView {
            sessions: self.sessions.insert(
                session_key(session),
                SavedSessionView {
                    agent_through: record.seq,
                    core_through: record.seq,
                    ..saved
                },
            ),
            ..logged
        }
    }

    /// Why a record cannot be saved, the first thing that is reported. A record that the history
    /// holds already is no problem.
    pub open spec fn record_problem(
        self,
        session: SessionId,
        runtime: RuntimeId,
        record: RecordView,
        changes: Seq<(InputId, InputState)>,
    ) -> Option<StoreError> {
        if self.record_origin(session, record.seq) is None {
            Some(StoreError::Corrupt { message: "Core record has no runtime provenance" })
        } else if self.record_origin(session, record.seq) != Some(runtime) {
            Some(StoreError::Corrupt { message: "Core record runtime does not match provenance" })
        } else if record.body is ToolFinished && self.call_origin(
            session,
            record.body->ToolFinished_call,
        ) is None {
            Some(StoreError::Corrupt { message: "Core call has no runtime provenance" })
        } else if !self.has_session(session) {
            Some(StoreError::Corrupt { message: "session does not exist" })
        } else if record.seq <= self.session(session).core_through {
            None
        } else if record.seq != self.session(session).core_through + 1 {
            Some(StoreError::Corrupt { message: "agent record sequence is not contiguous" })
        } else if !self.has_all(session, changes) {
            Some(StoreError::Corrupt { message: "input does not exist" })
        } else if self.source_conflicts(
            EvidenceRef { session, record: record.seq },
            source_of(record),
        ) {
            Some(
                StoreError::Corrupt {
                    message: "evidence source projection conflicts with durable history",
                },
            )
        } else if self.history(session).len() >= u64::MAX {
            Some(StoreError::RevisionExhausted)
        } else if result_at(
            session,
            self.next_seq(session),
            StoredEventView::Agent { runtime, record },
        ) is Some && self.results.dom().contains(result_key(session, self.next_seq(session))) {
            Some(StoreError::RevisionConflict)
        } else {
            None
        }
    }
}

/// Whether saving a record of the agent gives this store and this answer.
pub open spec fn saves_record(
    before: StoreView,
    session: SessionId,
    runtime: RuntimeId,
    record: RecordView,
    changes: Seq<(InputId, InputState)>,
    now: i64,
    after: StoreView,
    r: Result<Option<SessionSeq>, StoreError>,
) -> bool {
    match before.record_problem(session, runtime, record, changes) {
        Some(error) => r == Err::<Option<SessionSeq>, StoreError>(error)
            && after == before,
        None => if record.seq <= before.session(session).core_through {
            r == Ok::<Option<SessionSeq>, StoreError>(None) && after == before
        } else {
            &&& r == Ok::<Option<SessionSeq>, StoreError>(
                Some(before.next_seq(session)),
            )
            &&& after == before.with_record(
                session,
                runtime,
                record,
                changes,
                now,
            )
        },
    }
}

impl DataStore {
    /// Removes the write that a record settles, where that write has returned.
    fn settle(&mut self, workspace: WorkspaceId, session: SessionId, record: &Record)
        ensures
            final(self)@ == old(self)@.with_settled(workspace, session, record@),
    {
        match &record.body {
            RecordBody::ToolFinished { call, outcome, .. } => {
                if outcome.external_effect != ExternalEffect::Unknown {
                    match self.core_call_origin(session, *call) {
                        Some(origin) => {
                            let returned = match self.writes.get(
                                &make_write_key(workspace, origin),
                            ) {
                                Some(attempt) => match attempt.state {
                                    WriteState::Finished(_) => true,
                                    WriteState::Pending => false,
                                },
                                None => false,
                            };
                            if returned {
                                self.drop_write(workspace, origin);
                            }
                        },
                        None => {},
                    }
                }
            },
            _ => {},
        }
    }

    /// Saves an agent record in the history of its session, with the changes that it makes to
    /// inputs: once, in order, and only from the runtime that it came from. Returns where it was
    /// saved, or nothing where it was saved before.
    pub fn save_agent_record(
        &mut self,
        session: SessionId,
        runtime: RuntimeId,
        record: &Record,
        changes: &Vec<(InputId, InputState)>,
        now: i64,
    ) -> (r: Result<Option<SessionSeq>, StoreError>)
        ensures
            saves_record(old(self)@, session, runtime, record@, changes@, now, final(self)@, r),
    {
        let ghost start = self@;
        match self.core_record_origin(session, record.seq) {
            Some(origin) => {
                if origin != runtime {
                    return Err(
                        StoreError::Corrupt {
                            message: "Core record runtime does not match provenance",
                        },
                    );
                }
            },
            None => {
                return Err(
                    StoreError::Corrupt { message: "Core record has no runtime provenance" },
                );
            },
        }
        match &record.body {
            RecordBody::ToolFinished { call, .. } => {
                if self.core_call_origin(session, *call).is_none() {
                    return Err(
                        StoreError::Corrupt { message: "Core call has no runtime provenance" },
                    );
                }
            },
            _ => {},
        }
        let key = make_session_key(session);
        let workspace = match self.sessions.get(&key) {
            Some(saved) => {
                if record.seq <= saved.core_through {
                    return Ok(None);
                }
                if record.seq != saved.core_through + 1 {
                    return Err(
                        StoreError::Corrupt { message: "agent record sequence is not contiguous" },
                    );
                }
                saved.info.workspace
            },
            None => {
                return Err(StoreError::Corrupt { message: "session does not exist" });
            },
        };
        if !self.can_change(session, changes) {
            return Err(StoreError::Corrupt { message: "input does not exist" });
        }
        let source_ref = EvidenceRef { session, record: record.seq };
        let source = evidence_source_projection(record);
        if self.has_source_conflict(source_ref, &source) {
            return Err(
                StoreError::Corrupt {
                    message: "evidence source projection conflicts with durable history",
                },
            );
        }
        let through = self.history_through(session);
        let stored = StoredEvent::Agent { runtime, record: record.copy() };
        let ghost stored_view = stored@;
        if through.0 == u64::MAX {
            return Err(StoreError::RevisionExhausted);
        }
        let version = SessionSeq(through.0 + 1);
        let result = result_summary(session, version, &stored);
        if result.is_some() && self.results.has(&make_result_key(session, version)) {
            return Err(StoreError::RevisionConflict);
        }
        let _ = self.apply_changes(workspace, session, changes);
        let ghost changed = self@;
        proof {
            lemma_changes(start, session, changes@);
        }
        self.settle(workspace, session, record);
        let ghost settled = self@;
        let _ = self.sync_evidence_source(source_ref, &source);
        let ghost sourced = self@;
        proof {
            lemma_bodies_frame(settled, source_ref, body_pieces(source@));
            assert(settled.evidence_metadata == start.evidence_metadata);
            assert(sourced == settled.with_source(source_ref, source_of(record@)));
        }
        let sequence = self.append(session, stored, now);
        let ghost logged = self@;
        proof {
            assert(sourced.history(session) == start.history(session));
            assert(sequence == version);
        }
        match result {
            Some(value) => {
                let ghost value_view = value@;
                self.results.put(make_result_key(session, version), value);
                proof {
                    assert(self@.results =~= logged.results.insert(
                        result_key(session, version),
                        value_view,
                    ));
                }
            },
            None => {},
        }
        let ghost projected = self@;
        proof {
            assert(projected =~= logged.with_result(
                result_at(session, start.next_seq(session), stored_view),
            ));
        }
        let mut saved = self.sessions.take(&key).unwrap();
        saved.agent_through = record.seq;
        saved.core_through = record.seq;
        let ghost updated = saved@;
        self.sessions.put(key, saved);
        proof {
            assert(self@.sessions =~= start.sessions.insert(key, updated));
            assert(self@ =~= start.with_record(session, runtime, record@, changes@, now));
        }
        Ok(Some(sequence))
    }
}

} // verus!
