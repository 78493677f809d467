//! The user's decisions on results.

use vstd::prelude::*;

use super::history::at_least_one;
use super::inputs::fresh_input;
use super::keys::{
    acceptance_key, acceptance_request_key, make_acceptance_key, make_acceptance_request_key,
    make_request_key, make_session_key, request_key,
};
use super::{
    AcceptanceRequestRecord, DataStore, StoreView, StoredEntryView, StoredEvent, StoredEventView,
};
use crate::api::{
    AcceptanceCursor, AcceptancePage, AcceptanceReceipt, AcceptanceRecord, AcceptanceSubmission,
    InputId, InputView, ResultRef, SessionEvent, SessionEventView, SessionSeq, SubmissionReceipt,
};
use crate::document::{last_of, listing, DocumentKey, KeyRange};
use crate::error::StoreError;
use crate::ids::AcceptanceId;
use crate::seqs::{lemma_slot, slot, sorted_by};

verus! {

/// Why a decision was not recorded.
#[derive(Debug, PartialEq, Eq)]
pub enum AcceptanceError {
    /// There is no such result.
    ResultNotFound,
    /// The request was reused with different content.
    Conflict,
    Store(StoreError),
}

/// The text of an acceptance error that comes from no store.
pub open spec fn acceptance_error_text(error: AcceptanceError) -> Seq<char> {
    match error {
        AcceptanceError::ResultNotFound => "result not found"@,
        AcceptanceError::Conflict => "acceptance request ID was reused with different content"@,
        AcceptanceError::Store(error) => error.text(),
    }
}

impl AcceptanceError {
    /// What this error says.
    pub fn message(&self) -> (r: String)
        ensures
            r@ == acceptance_error_text(*self),
    {
        match self {
            AcceptanceError::ResultNotFound => "result not found".to_owned(),
            AcceptanceError::Conflict =>
                "acceptance request ID was reused with different content".to_owned(),
            AcceptanceError::Store(error) => error.message(),
        }
    }
}

/// The range of the decisions on a result, before a position where one is given.
pub open spec fn acceptances_before(result: ResultRef, cursor: Option<AcceptanceCursor>) -> KeyRange {
    KeyRange {
        owner: Some(result.session.0),
        item: Some(result.version.0 as u128),
        before: match cursor {
            Some(cursor) => Some(acceptance_key(result, cursor.before)),
            None => None,
        },
    }
}

/// The position of a recorded decision.
pub open spec fn position_of() -> spec_fn(AcceptanceRecord) -> int {
    |record: AcceptanceRecord| record.saved_at.0 as int
}

/// The event of a decision.
pub open spec fn acceptance_event(id: AcceptanceId, submission: AcceptanceSubmission) -> StoredEventView {
    StoredEventView::App(
        SessionEventView::AcceptanceRecorded {
            acceptance: id,
            result: submission.result,
            decision: submission.decision,
            reason: submission.reason,
        },
    )
}

/// What a decision is recorded as.
pub open spec fn acceptance_record(
    id: AcceptanceId,
    submission: AcceptanceSubmission,
    receipt: AcceptanceReceipt,
) -> AcceptanceRecord {
    AcceptanceRecord {
        id,
        request_id: submission.request_id,
        result: submission.result,
        decision: submission.decision,
        reason: submission.reason,
        saved_at: receipt.saved_at,
        rework: receipt.rework,
    }
}

impl StoreView {
    /// A page of the decisions on a result, newest last.
    pub open spec fn acceptance_page(
        self,
        result: ResultRef,
        cursor: Option<AcceptanceCursor>,
        limit: usize,
    ) -> Result<(Seq<AcceptanceRecord>, Option<AcceptanceCursor>), StoreError> {
        let all = listing(self.acceptances.dom(), acceptances_before(result, cursor));
        let values = last_of(all, at_least_one(limit) as nat).map_values(
            |key: DocumentKey| self.acceptances[key],
        );
        let items = sorted_by(values, position_of());
        if forall|i: int| #![trigger values[i]]
            0 <= i < values.len() ==> values[i].result == result {
            Ok(
                (
                    items,
                    if all.len() > at_least_one(limit) {
                        Some(AcceptanceCursor { result, before: items[0].saved_at })
                    } else {
                        None
                    },
                ),
            )
        } else {
            Err(
                StoreError::Corrupt {
                    message: "acceptance record is stored under the wrong result",
                },
            )
        }
    }

    /// The receipt of a new decision: it takes the next place of the journal, and the input of its
    /// rework the place behind it.
    pub open spec fn acceptance_receipt(
        self,
        id: AcceptanceId,
        submission: AcceptanceSubmission,
    ) -> AcceptanceReceipt {
        let session = submission.result.session;
        let len = self.history(session).len();
        AcceptanceReceipt {
            id,
            saved_at: SessionSeq((len + 1) as u64),
            rework: match submission.rework {
                Some(_) => Some(
                    SubmissionReceipt {
                        input: InputId(self.session(session).next_input),
                        saved_at: SessionSeq((len + 2) as u64),
                    },
                ),
                None => None,
            },
        }
    }

    /// The store with a new decision: its event, its rework as a fresh input, its record and its
    /// request.
    pub open spec fn with_acceptance(
        self,
        id: AcceptanceId,
        submission: AcceptanceSubmission,
        now: i64,
    ) -> StoreView {
        let session = submission.result.session;
        let receipt = self.acceptance_receipt(id, submission);
        let logged = self.with_entries(
            session,
            seq![StoredEntryView { occurred_at: now, event: acceptance_event(id, submission) }],
        );
        let reworked = match submission.rework {
            Some(input) => logged.with_submission(session, input, now),
            None => logged,
        };
        StoreView {
            acceptances: reworked.acceptances.insert(
                acceptance_key(submission.result, receipt.saved_at),
                acceptance_record(id, submission, receipt),
            ),
            acceptance_requests: reworked.acceptance_requests.insert(
                acceptance_request_key(session, submission.request_id),
                AcceptanceRequestRecord { submission, receipt },
            ),
            ..reworked
        }
    }

    /// What a decision that was submitted before comes to: its receipt, with the input of its
    /// rework.
    pub open spec fn repeated_acceptance(
        self,
        submission: AcceptanceSubmission,
        existing: AcceptanceRequestRecord,
    ) -> Result<(AcceptanceReceipt, Option<InputView>), AcceptanceError> {
        let session = submission.result.session;
        if !existing.submission.agrees(submission) {
            Err(AcceptanceError::Conflict)
        } else {
            match existing.receipt.rework {
                Some(rework) => if self.has_input(session, rework.input) {
                    Ok((existing.receipt, Some(self.input(session, rework.input))))
                } else {
                    Err(
                        AcceptanceError::Store(
                            StoreError::Corrupt { message: "acceptance rework input is missing" },
                        ),
                    )
                },
                None => Ok((existing.receipt, None)),
            }
        }
    }

    /// Why a decision is not recorded as a new one, the first thing that is reported.
    pub open spec fn acceptance_problem(self, submission: AcceptanceSubmission) -> Option<
        AcceptanceError,
    > {
        let session = submission.result.session;
        if !self.has_session(session) {
            Some(
                AcceptanceError::Store(
                    StoreError::Corrupt {
                        message: "acceptance result belongs to a missing session",
                    },
                ),
            )
        } else {
            match submission.rework {
                Some(input) => if self.requests.dom().contains(
                    request_key(session, input.request_id),
                ) {
                    Some(AcceptanceError::Conflict)
                } else if self.session(session).next_input == u64::MAX {
                    Some(AcceptanceError::Store(StoreError::RevisionExhausted))
                } else {
                    None
                },
                None => None,
            }
        }
    }

    /// What submitting a decision comes to: the store after it, and the answer.
    pub open spec fn acceptance_outcome(
        self,
        id: AcceptanceId,
        submission: AcceptanceSubmission,
        now: i64,
    ) -> (StoreView, Result<(AcceptanceReceipt, Option<InputView>), AcceptanceError>) {
        let session = submission.result.session;
        let request = acceptance_request_key(session, submission.request_id);
        match self.find_result(submission.result) {
            Err(error) => (self, Err(AcceptanceError::Store(error))),
            Ok(None) => (self, Err(AcceptanceError::ResultNotFound)),
            Ok(Some(_)) => if self.acceptance_requests.dom().contains(request) {
                (self, self.repeated_acceptance(submission, self.acceptance_requests[request]))
            } else {
                match self.acceptance_problem(submission) {
                    Some(error) => (self, Err(error)),
                    None => {
                        let receipt = self.acceptance_receipt(id, submission);
                        (
                            self.with_acceptance(id, submission, now),
                            Ok(
                                (
                                    receipt,
                                    match submission.rework {
                                        Some(input) => Some(
                                            fresh_input(
                                                InputId(self.session(session).next_input),
                                                input,
                                            ),
                                        ),
                                        None => None,
                                    },
                                ),
                            ),
                        )
                    },
                }
            },
        }
    }
}

/// Puts a decision in its place by position.
fn insert_by_position(items: &mut Vec<AcceptanceRecord>, item: AcceptanceRecord)
    ensures
        final(items)@ == old(items)@.insert(
            slot(old(items)@.map_values(position_of()), item.saved_at.0 as int),
            item,
        ),
{
    let ghost keys = items@.map_values(position_of());
    let position: u64 = item.saved_at.0;
    let mut at: usize = items.len();
    while at > 0 && items[at - 1].saved_at.0 > position
        invariant
            at <= items@.len(),
            keys == items@.map_values(position_of()),
            forall|i: int| at <= i < keys.len() ==> keys[i] > position,
        decreases at,
    {
        at = at - 1;
        proof {
            assert(keys[at as int] == items@[at as int].saved_at.0);
        }
    }
    proof {
        if at > 0 {
            assert(keys[at - 1] == items@[at - 1].saved_at.0);
        }
        lemma_slot(keys, position as int, at as int);
    }
    let ghost before = items@;
    items.insert(at, item);
    proof {
        assert(items@ =~= before.insert(at as int, item));
    }
}

impl DataStore {
    /// A page of the decisions on a result, newest last.
    pub fn acceptances(
        &self,
        result: ResultRef,
        cursor: Option<AcceptanceCursor>,
        limit: usize,
    ) -> (r: Result<AcceptancePage, StoreError>)
        ensures
            match self@.acceptance_page(result, cursor, limit) {
                Ok((items, older)) => {
                    &&& r matches Ok(page)
                    &&& page.items@ == items
                    &&& page.older_cursor == older
                },
                Err(error) => r matches Err(e) && e == error,
            },
    {
        let wanted: usize = if limit < 1 {
            1
        } else {
            limit
        };
        let before = match cursor {
            Some(cursor) => Some(make_acceptance_key(result, cursor.before())),
            None => None,
        };
        let range = KeyRange {
            owner: Some(result.session.0),
            item: Some(result.version.0 as u128),
            before,
        };
        let (keys, older) = self.acceptances.recent(&range, wanted);
        let ghost values = keys@.map_values(|key: DocumentKey| self@.acceptances[key]);
        let mut items: Vec<AcceptanceRecord> = Vec::new();
        let mut i: usize = 0;
        proof {
            assert(items@ =~= sorted_by(values.take(0), position_of()));
        }
        while i < keys.len()
            invariant
                i <= keys@.len(),
                values == keys@.map_values(|key: DocumentKey| self@.acceptances[key]),
                items@ == sorted_by(values.take(i as int), position_of()),
                items@.len() == i,
                forall|j: int| #![trigger values[j]] 0 <= j < i ==> values[j].result == result,
                forall|j: int| #![trigger keys@[j]]
                    0 <= j < keys@.len() ==> self.acceptances@.dom().contains(keys@[j]),
                keys@ == last_of(
                    listing(self@.acceptances.dom(), acceptances_before(result, cursor)),
                    at_least_one(limit) as nat,
                ),
            decreases keys@.len() - i,
        {
            proof {
                assert(self.acceptances@.dom().contains(keys@[i as int]));
                assert(values[i as int] == self@.acceptances[keys@[i as int]]);
                assert(values.take(i + 1).drop_last() =~= values.take(i as int));
                assert(values.take(i + 1).last() == values[i as int]);
            }
            let stored = self.acceptances.get(&keys[i]).unwrap();
            if stored.result != result {
                return Err(
                    StoreError::Corrupt {
                        message: "acceptance record is stored under the wrong result",
                    },
                );
            }
            insert_by_position(&mut items, stored.clone());
            proof {
                crate::seqs::lemma_slot_bounds(
                    sorted_by(values.take(i as int), position_of()).map_values(position_of()),
                    values[i as int].saved_at.0 as int,
                );
            }
            i = i + 1;
        }
        proof {
            assert(values.take(i as int) =~= values);
        }
        let older_cursor = if older {
            Some(AcceptanceCursor::new(result, items[0].saved_at))
        } else {
            None
        };
        Ok(AcceptancePage { items, older_cursor })
    }

    /// Records a decision on a result under a fresh identity: once per request, with its rework as
    /// a fresh input.
    pub fn record_acceptance(&mut self, submission: &AcceptanceSubmission, now: i64) -> (r: Result<
        (AcceptanceReceipt, Option<InputView>),
        AcceptanceError,
    >)
        ensures
            exists|id: AcceptanceId|
                id.0 != 0 && (final(self)@, r) == #[trigger] old(self)@.acceptance_outcome(
                    id,
                    *submission,
                    now,
                ),
    {
        let id = AcceptanceId::new();
        self.record_acceptance_as(id, submission, now)
    }

    /// Records a decision on a result under the given identity: once per request, with its rework
    /// as a fresh input.
    pub fn record_acceptance_as(
        &mut self,
        id: AcceptanceId,
        submission: &AcceptanceSubmission,
        now: i64,
    ) -> (r: Result<(AcceptanceReceipt, Option<InputView>), AcceptanceError>)
        ensures
            (final(self)@, r) == old(self)@.acceptance_outcome(id, *submission, now),
    {
        let ghost start = self@;
        match self.result(submission.result) {
            Ok(Some(_)) => {},
            Ok(None) => {
                return Err(AcceptanceError::ResultNotFound);
            },
            Err(error) => {
                return Err(AcceptanceError::Store(error));
            },
        }
        let session = submission.result.session;
        let request = make_acceptance_request_key(session, submission.request_id);
        match self.acceptance_requests.get(&request) {
            Some(existing) => {
                if !existing.submission.same(submission) {
                    return Err(AcceptanceError::Conflict);
                }
                return match existing.receipt.rework {
                    Some(rework) => match self.input(session, rework.input) {
                        Some(input) => Ok((existing.receipt, Some(input))),
                        None => Err(
                            AcceptanceError::Store(
                                StoreError::Corrupt {
                                    message: "acceptance rework input is missing",
                                },
                            ),
                        ),
                    },
                    None => Ok((existing.receipt, None)),
                };
            },
            None => {},
        }
        let next_input: u64 = match self.sessions.get(&make_session_key(session)) {
            Some(saved) => saved.next_input,
            None => {
                return Err(
                    AcceptanceError::Store(
                        StoreError::Corrupt {
                            message: "acceptance result belongs to a missing session",
                        },
                    ),
                );
            },
        };
        match &submission.rework {
            Some(input) => {
                if self.requests.has(&make_request_key(session, input.request_id)) {
                    return Err(AcceptanceError::Conflict);
                }
                if next_input == u64::MAX {
                    return Err(AcceptanceError::Store(StoreError::RevisionExhausted));
                }
            },
            None => {},
        }
        let event = SessionEvent::AcceptanceRecorded {
            acceptance: id,
            result: submission.result,
            decision: submission.decision,
            reason: submission.reason.clone(),
        };
        let saved_at = self.append(session, StoredEvent::App(event), now);
        let ghost logged = self@;
        let mut saved_input: Option<InputView> = None;
        let mut rework: Option<SubmissionReceipt> = None;
        match &submission.rework {
            Some(input) => {
                let (receipt, view) = self.submit(session, input, now);
                saved_input = Some(view);
                rework = Some(receipt);
            },
            None => {},
        }
        let ghost reworked = self@;
        let receipt = AcceptanceReceipt { id, saved_at, rework };
        let record = AcceptanceRecord {
            id,
            request_id: submission.request_id,
            result: submission.result,
            decision: submission.decision,
            reason: submission.reason.clone(),
            saved_at,
            rework,
        };
        self.acceptances.put(make_acceptance_key(submission.result, saved_at), record);
        self.acceptance_requests.put(
            request,
            AcceptanceRequestRecord { submission: submission.clone(), receipt },
        );
        proof {
            assert(receipt == start.acceptance_receipt(id, *submission));
            assert(self@ =~= start.with_acceptance(id, *submission, now));
        }
        Ok((receipt, saved_input))
    }
}

/// Submitting a decision again gives the receipt of the first time and changes nothing.
pub proof fn law_acceptance_is_idempotent(
    store: StoreView,
    first: AcceptanceId,
    second: AcceptanceId,
    submission: AcceptanceSubmission,
    now: i64,
    later: i64,
)
    requires
        store.acceptance_outcome(first, submission, now).1 is Ok,
        store.history(submission.result.session).len() + 2 <= u64::MAX,
    ensures
        ({
            let (after, answer) = store.acceptance_outcome(first, submission, now);
            after.acceptance_outcome(second, submission, later) == (after, answer)
        }),
{
    let (after, answer) = store.acceptance_outcome(first, submission, now);
    let session = submission.result.session;
    let result = submission.result;
    assert(submission.agrees(submission));
    assert(after.results == store.results);
    let history = store.history(session);
    assert(history.len() <= after.history(session).len());
    if 1 <= result.version.0 <= history.len() {
        assert(after.history(session)[result.version.0 - 1] == history[result.version.0 - 1]);
    }
}

/// A request that was used for one decision is refused for another.
pub proof fn law_reused_acceptance_request_is_refused(
    store: StoreView,
    id: AcceptanceId,
    other: AcceptanceId,
    submission: AcceptanceSubmission,
    changed: AcceptanceSubmission,
    now: i64,
    later: i64,
)
    requires
        store.acceptance_outcome(id, submission, now).1 is Ok,
        changed.request_id == submission.request_id,
        changed.result.session == submission.result.session,
        !submission.agrees(changed),
        store.acceptance_requests.dom().contains(
            acceptance_request_key(submission.result.session, submission.request_id),
        ) ==> store.acceptance_requests[acceptance_request_key(
            submission.result.session,
            submission.request_id,
        )].submission == submission,
        store.acceptance_outcome(id, submission, now).0.find_result(changed.result) matches Ok(
            Some(_),
        ),
    ensures
        ({
            let after = store.acceptance_outcome(id, submission, now).0;
            after.acceptance_outcome(other, changed, later) == (
                after,
                Err::<(AcceptanceReceipt, Option<InputView>), AcceptanceError>(
                    AcceptanceError::Conflict,
                ),
            )
        }),
{
}

} // verus!
