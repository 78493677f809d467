//! Results of a session: their collection from the journal, pages of them, and what they cite.

use vstd::prelude::*;

use super::evidence::{body_pieces, describe, lemma_bodies_frame, migrate};
use super::history::{at_least_one, before_position, recent_bounds};
use super::keys::{
    evidence_key, make_evidence_key, make_result_key, make_session_key, result_key, session_key,
};
use super::projection::{evidence_source_projection, result_at, result_summary, source_of};
use super::{
    texts, DataStore, ProjectionState, StoreView, StoredEvent, StoredEventView,
    StoredEvidenceMetadata, StoredEvidenceMetadataView, StoredEvidenceSource, StoredResult,
    StoredResultView,
};
use crate::api::{
    EvidenceAvailability, EvidenceCursor, EvidencePage, EvidenceRef, EvidenceSourceKind,
    EvidenceSummary, HistoryCursor, ResultArtifact, ResultPage, ResultRef, ResultSummary,
    SessionSeq,
};
use crate::config::copy_strings;
use crate::document::{last_of, listing, DocumentKey, KeyRange, Table};
use crate::error::StoreError;
use crate::ids::SessionId;
use crate::record::OutcomeKind;
use crate::seqs::{lemma_slot, sorted_by};
use crate::text::same_text;

verus! {

/// How many journal entries one step of a collection reads.
pub const BACKFILL_WINDOW: usize = 256;

/// What a list shows of a result, by its values.
#[verifier::ext_equal]
pub ghost struct ResultSummaryView {
    pub result: ResultRef,
    pub outcome: OutcomeKind,
    pub summary: Seq<char>,
    pub remaining: Seq<Seq<char>>,
}

impl View for ResultSummary {
    type V = ResultSummaryView;

    open spec fn view(&self) -> ResultSummaryView {
        ResultSummaryView {
            result: self.result,
            outcome: self.outcome,
            summary: self.summary@,
            remaining: texts(self.remaining@),
        }
    }
}

impl StoredResultView {
    /// What a list shows of this result.
    pub open spec fn public(self) -> ResultSummaryView {
        ResultSummaryView {
            result: self.result,
            outcome: self.outcome,
            summary: self.summary,
            remaining: self.remaining,
        }
    }
}

/// Summaries by their values.
pub open spec fn summary_views(items: Seq<ResultSummary>) -> Seq<ResultSummaryView> {
    items.map_values(|item: ResultSummary| item@)
}

/// Where a collection starts that has not run yet: at the end of the journal.
pub open spec fn first_state(len: int) -> ProjectionState {
    ProjectionState {
        snapshot_through: SessionSeq(len as u64),
        before: SessionSeq((len + 1) as u64),
        complete: len == 0,
    }
}

/// The journal places that the next step of a collection reads.
pub open spec fn step_bounds(len: int, state: ProjectionState) -> (int, int) {
    recent_bounds(
        len,
        before_position(state.before),
        state.snapshot_through.0 as int,
        BACKFILL_WINDOW as int,
    )
}

/// A collection after a step that read from place `start` on.
pub open spec fn stepped(state: ProjectionState, start: int) -> ProjectionState {
    ProjectionState {
        snapshot_through: state.snapshot_through,
        before: SessionSeq((start + 1) as u64),
        complete: start == 0,
    }
}

/// Where a collection stands; an error where one cannot start.
pub open spec fn state_in(
    states: Map<DocumentKey, ProjectionState>,
    session: SessionId,
    len: int,
) -> Result<ProjectionState, StoreError> {
    if states.dom().contains(session_key(session)) {
        Ok(states[session_key(session)])
    } else if len >= u64::MAX {
        Err(StoreError::RevisionExhausted)
    } else {
        Ok(first_state(len))
    }
}

impl StoreView {
    /// The result in the journal entry at a place.
    pub open spec fn result_in(self, session: SessionId, place: int) -> Option<StoredResultView> {
        result_at(session, SessionSeq((place + 1) as u64), self.history(session)[place].event)
    }

    /// Whether the entry at a place holds another result than the one that is collected for it.
    pub open spec fn result_conflicts(self, session: SessionId, place: int) -> bool {
        let key = result_key(session, SessionSeq((place + 1) as u64));
        &&& self.result_in(session, place) is Some
        &&& self.results.dom().contains(key)
        &&& self.results[key] != self.result_in(session, place)->0
    }

    /// The store with the results of the entries from place `from` up to place `to`.
    pub open spec fn with_results(self, session: SessionId, from: int, to: int) -> StoreView
        decreases to - from,
    {
        if to <= from {
            self
        } else {
            self.with_results(session, from, to - 1).with_result(self.result_in(session, to - 1))
        }
    }

    /// One step of the collection of results: the store after it and whether more is to be read.
    pub open spec fn result_backfill(self, session: SessionId) -> Result<
        (StoreView, bool),
        StoreError,
    > {
        let len = self.history(session).len() as int;
        match state_in(self.result_projections, session, len) {
            Err(error) => Err(error),
            Ok(state) => {
                let (start, end) = step_bounds(len, state);
                if state.complete {
                    Ok((self, false))
                } else if exists|place: int|
                    start <= place < end && #[trigger] self.result_conflicts(session, place) {
                    Err(
                        StoreError::Corrupt {
                            message: "result projection conflicts with durable history",
                        },
                    )
                } else {
                    Ok(
                        (
                            StoreView {
                                result_projections: self.result_projections.insert(
                                    session_key(session),
                                    stepped(state, start),
                                ),
                                ..self.with_results(session, start, end)
                            },
                            start > 0,
                        ),
                    )
                }
            },
        }
    }

    /// The store with the source that a journal entry holds, or nothing where it conflicts with a
    /// stored one.
    pub open spec fn with_event_source(
        self,
        session: SessionId,
        stored: StoredEventView,
    ) -> Option<StoreView> {
        match stored {
            StoredEventView::App(_) => Some(self),
            StoredEventView::Agent { record, .. } => {
                let source = EvidenceRef { session, record: record.seq };
                if self.source_conflicts(source, source_of(record)) {
                    None
                } else {
                    Some(self.with_source(source, source_of(record)))
                }
            },
        }
    }

    /// The store with the sources of the entries from place `from` up to place `to`, or nothing
    /// where one of them conflicts with a stored one.
    pub open spec fn with_sources(self, session: SessionId, from: int, to: int) -> Option<StoreView>
        decreases to - from,
    {
        if to <= from {
            Some(self)
        } else {
            match self.with_sources(session, from, to - 1) {
                Some(store) => store.with_event_source(
                    session,
                    self.history(session)[to - 1].event,
                ),
                None => None,
            }
        }
    }

    /// One step of the collection of sources: the store after it and whether more is to be read.
    pub open spec fn evidence_backfill(self, session: SessionId) -> Result<
        (StoreView, bool),
        StoreError,
    > {
        let len = self.history(session).len() as int;
        match state_in(self.evidence_projections, session, len) {
            Err(error) => Err(error),
            Ok(state) => {
                let (start, end) = step_bounds(len, state);
                if state.complete {
                    Ok((self, false))
                } else {
                    match self.with_sources(session, start, end) {
                        Some(store) => Ok(
                            (
                                StoreView {
                                    evidence_projections: self.evidence_projections.insert(
                                        session_key(session),
                                        stepped(state, start),
                                    ),
                                    ..store
                                },
                                start > 0,
                            ),
                        ),
                        None => Err(
                            StoreError::Corrupt {
                                message:
                                    "evidence source projection conflicts with durable history",
                            },
                        ),
                    }
                }
            },
        }
    }
}

/// Only results change with results.
proof fn lemma_results_frame(store: StoreView, session: SessionId, from: int, to: int)
    ensures
        store.with_results(session, from, to) == (StoreView {
            results: store.with_results(session, from, to).results,
            ..store
        }),
    decreases to - from,
{
    if from < to {
        lemma_results_frame(store, session, from, to - 1);
    }
}

/// Only sources change with sources, and a shorter range conflicts only where the longer one does.
proof fn lemma_sources_frame(store: StoreView, session: SessionId, from: int, to: int)
    ensures
        store.with_sources(session, from, to) matches Some(after) ==> after == (StoreView {
            evidence_metadata: after.evidence_metadata,
            evidence_bodies: after.evidence_bodies,
            ..store
        }),
    decreases to - from,
{
    if from < to {
        lemma_sources_frame(store, session, from, to - 1);
        match store.with_sources(session, from, to - 1) {
            Some(before) => {
                match store.history(session)[to - 1].event {
                    StoredEventView::Agent { record, .. } => {
                        lemma_bodies_frame(
                            before,
                            EvidenceRef { session, record: record.seq },
                            body_pieces(source_of(record)),
                        );
                    },
                    StoredEventView::App(_) => {},
                }
            },
            None => {},
        }
    }
}

proof fn lemma_sources_shorter(store: StoreView, session: SessionId, from: int, middle: int, to: int)
    requires
        from <= middle <= to,
        store.with_sources(session, from, to) is Some,
    ensures
        store.with_sources(session, from, middle) is Some,
    decreases to - middle,
{
    if middle < to {
        lemma_sources_shorter(store, session, from, middle + 1, to);
    }
}

fn same_strings(a: &Vec<String>, b: &Vec<String>) -> (r: bool)
    ensures
        r == (texts(a@) == texts(b@)),
{
    let ghost left = texts(a@);
    let ghost right = texts(b@);
    if a.len() != b.len() {
        proof {
            assert(left.len() != right.len());
        }
        return false;
    }
    let mut i: usize = 0;
    while i < a.len()
        invariant
            a@.len() == b@.len(),
            i <= a@.len(),
            left == texts(a@),
            right == texts(b@),
            forall|j: int| 0 <= j < i ==> left[j] == right[j],
        decreases a@.len() - i,
    {
        proof {
            assert(left[i as int] == a@[i as int]@);
            assert(right[i as int] == b@[i as int]@);
        }
        if !same_text(a[i].as_str(), b[i].as_str()) {
            return false;
        }
        i = i + 1;
    }
    proof {
        assert(left =~= right);
    }
    true
}

fn same_sources(a: &Vec<EvidenceRef>, b: &Vec<EvidenceRef>) -> (r: bool)
    ensures
        r == (a@ == b@),
{
    if a.len() != b.len() {
        return false;
    }
    let mut i: usize = 0;
    while i < a.len()
        invariant
            a@.len() == b@.len(),
            i <= a@.len(),
            forall|j: int| 0 <= j < i ==> a@[j] == b@[j],
        decreases a@.len() - i,
    {
        if a[i] != b[i] {
            return false;
        }
        i = i + 1;
    }
    proof {
        assert(a@ =~= b@);
    }
    true
}

/// The sources from place `from` up to place `to`.
fn copy_sources(sources: &Vec<EvidenceRef>, from: usize, to: usize) -> (r: Vec<EvidenceRef>)
    requires
        from <= to <= sources@.len(),
    ensures
        r@ == sources@.subrange(from as int, to as int),
{
    let mut r: Vec<EvidenceRef> = Vec::new();
    let mut i: usize = from;
    while i < to
        invariant
            from <= i <= to <= sources@.len(),
            r@ == sources@.subrange(from as int, i as int),
        decreases to - i,
    {
        r.push(sources[i]);
        proof {
            assert(r@ =~= sources@.subrange(from as int, i + 1));
        }
        i = i + 1;
    }
    r
}

impl StoredResult {
    /// Whether two results have the same values.
    pub fn same(&self, other: &StoredResult) -> (r: bool)
        ensures
            r == (self@ == other@),
    {
        self.result == other.result && self.outcome == other.outcome && same_text(
            self.summary.as_str(),
            other.summary.as_str(),
        ) && same_strings(&self.remaining, &other.remaining) && same_sources(
            &self.evidence,
            &other.evidence,
        )
    }

    /// A copy of this result.
    pub fn copy(&self) -> (r: StoredResult)
        ensures
            r@ == self@,
    {
        proof {
            assert(self.evidence@.subrange(0, self.evidence@.len() as int) =~= self.evidence@);
        }
        StoredResult {
            result: self.result,
            outcome: self.outcome,
            summary: self.summary.clone(),
            remaining: copy_strings(&self.remaining),
            evidence: copy_sources(&self.evidence, 0, self.evidence.len()),
        }
    }
}

impl DataStore {
    /// Where a collection stands.
    fn projection_state(&self, session: SessionId, states: &Table<ProjectionState>) -> (r: Result<
        ProjectionState,
        StoreError,
    >)
        ensures
            r == state_in(states@, session, self@.history(session).len() as int),
    {
        match states.get(&make_session_key(session)) {
            Some(state) => Ok(*state),
            None => {
                let through = self.history_through(session);
                if through.0 == u64::MAX {
                    return Err(StoreError::RevisionExhausted);
                }
                Ok(
                    ProjectionState {
                        snapshot_through: through,
                        before: SessionSeq(through.0 + 1),
                        complete: through.0 == 0,
                    },
                )
            },
        }
    }

    /// The journal places that the next step of a collection reads.
    fn step_places(&self, session: SessionId, state: ProjectionState) -> (r: (usize, usize))
        ensures
            (r.0 as int, r.1 as int) == step_bounds(self@.history(session).len() as int, state),
            r.0 <= r.1 <= self@.history(session).len(),
    {
        let last: u64 = if state.before.0 < 1 {
            0
        } else {
            state.before.0 - 1
        };
        self.recent_places(session, last, state.snapshot_through.0, BACKFILL_WINDOW)
    }

    /// The result in the journal entry at a place.
    fn journal_result(&self, session: SessionId, place: usize) -> (r: Option<StoredResult>)
        requires
            place < self@.history(session).len(),
        ensures
            match r {
                Some(result) => self@.result_in(session, place as int) == Some(result@),
                None => self@.result_in(session, place as int) is None,
            },
    {
        match self.journals.get(&make_session_key(session)) {
            Some(journal) => {
                let count: usize = journal.entries.len();
                proof {
                    assert(place < count);
                    assert(self@.history(session)[place as int] == journal.entries@[place as int]@);
                }
                result_summary(
                    session,
                    SessionSeq(place as u64 + 1),
                    &journal.entries[place].event,
                )
            },
            None => None,
        }
    }

    /// The source in the journal entry at a place.
    fn journal_source(&self, session: SessionId, place: usize) -> (r: Option<
        (EvidenceRef, StoredEvidenceSource),
    >)
        requires
            place < self@.history(session).len(),
        ensures
            match self@.history(session)[place as int].event {
                StoredEventView::App(_) => r is None,
                StoredEventView::Agent { record, .. } => {
                    &&& r matches Some((source, content))
                    &&& source == (EvidenceRef { session, record: record.seq })
                    &&& content@ == source_of(record)
                },
            },
    {
        match self.journals.get(&make_session_key(session)) {
            Some(journal) => {
                proof {
                    assert(self@.history(session)[place as int] == journal.entries@[place as int]@);
                }
                match &journal.entries[place].event {
                    StoredEvent::App(_) => None,
                    StoredEvent::Agent { record, .. } => Some(
                        (
                            EvidenceRef { session, record: record.seq },
                            evidence_source_projection(record),
                        ),
                    ),
                }
            },
            None => None,
        }
    }

    /// Runs one step of the collection of results. Returns whether more is to be read.
    pub(crate) fn backfill_result_projection(&mut self, session: SessionId) -> (r: Result<
        bool,
        StoreError,
    >)
        ensures
            match old(self)@.result_backfill(session) {
                Ok((store, pending)) => final(self)@ == store && r == Ok::<bool, StoreError>(
                    pending,
                ),
                Err(error) => final(self)@ == old(self)@ && r == Err::<bool, StoreError>(error),
            },
    {
        let ghost start = self@;
        let state = match self.projection_state(session, &self.result_projections) {
            Ok(state) => state,
            Err(error) => {
                return Err(error);
            },
        };
        if state.complete {
            return Ok(false);
        }
        let (from, to) = self.step_places(session, state);
        let mut i: usize = from;
        while i < to
            invariant
                start == self@,
                start == old(self)@,
                from <= i <= to <= start.history(session).len(),
                (from as int, to as int) == step_bounds(
                    start.history(session).len() as int,
                    state,
                ),
                state_in(
                    start.result_projections,
                    session,
                    start.history(session).len() as int,
                ) == Ok::<ProjectionState, StoreError>(state),
                !state.complete,
                forall|place: int|
                    from <= place < i ==> !#[trigger] start.result_conflicts(session, place),
            decreases to - i,
        {
            match self.journal_result(session, i) {
                Some(result) => {
                    let key = make_result_key(session, SessionSeq(i as u64 + 1));
                    match self.results.get(&key) {
                        Some(saved) => {
                            proof {
                                assert(start.results[key] == saved@);
                            }
                            if !saved.same(&result) {
                                proof {
                                    assert(start.result_conflicts(session, i as int));
                                }
                                return Err(
                                    StoreError::Corrupt {
                                        message: "result projection conflicts with durable history",
                                    },
                                );
                            }
                        },
                        None => {},
                    }
                },
                None => {},
            }
            i = i + 1;
        }
        let mut i: usize = from;
        while i < to
            invariant
                from <= i <= to <= start.history(session).len(),
                self@ == start.with_results(session, from as int, i as int),
            decreases to - i,
        {
            let ghost before = self@;
            proof {
                lemma_results_frame(start, session, from as int, i as int);
                assert(before.result_in(session, i as int) == start.result_in(session, i as int));
            }
            match self.journal_result(session, i) {
                Some(result) => {
                    let key = make_result_key(session, SessionSeq(i as u64 + 1));
                    let ghost value = result@;
                    self.results.put(key, result);
                    proof {
                        assert(self@.results =~= before.results.insert(key, value));
                        assert(self@ =~= before.with_result(Some(value)));
                    }
                },
                None => {},
            }
            i = i + 1;
        }
        let ghost collected = self@;
        proof {
            lemma_results_frame(start, session, from as int, to as int);
        }
        self.result_projections.put(
            make_session_key(session),
            ProjectionState {
                snapshot_through: state.snapshot_through,
                before: SessionSeq(from as u64 + 1),
                complete: from == 0,
            },
        );
        proof {
            assert(self@ =~= (StoreView {
                result_projections: start.result_projections.insert(
                    session_key(session),
                    stepped(state, from as int),
                ),
                ..collected
            }));
        }
        Ok(from > 0)
    }

    /// Whether the sources of the entries from place `from` up to place `to` agree with the stored
    /// ones and with each other.
    fn sources_agree(&self, session: SessionId, from: usize, to: usize) -> (r: bool)
        requires
            from <= to <= self@.history(session).len(),
        ensures
            r == (self@.with_sources(session, from as int, to as int) is Some),
    {
        let ghost start = self@;
        let mut seen: Table<StoredEvidenceMetadata> = Table::new();
        let ghost mut reached = start;
        let mut i: usize = from;
        proof {
            assert(start.evidence_metadata.union_prefer_right(
                seen@.map_values(|metadata: StoredEvidenceMetadata| metadata@),
            ) =~= start.evidence_metadata);
        }
        while i < to
            invariant
                start == self@,
                from <= i <= to <= start.history(session).len(),
                start.with_sources(session, from as int, i as int) == Some(reached),
                reached.evidence_metadata == start.evidence_metadata.union_prefer_right(
                    seen@.map_values(|metadata: StoredEvidenceMetadata| metadata@),
                ),
            decreases to - i,
        {
            match self.journal_source(session, i) {
                Some((source, content)) => {
                    let (metadata, _) = describe(&content);
                    let key = make_evidence_key(source);
                    let agrees = match seen.get(&key) {
                        Some(saved) => saved.same(&metadata),
                        None => match self.evidence_metadata.get(&key) {
                            Some(saved) => saved.same(&metadata),
                            None => true,
                        },
                    };
                    proof {
                        assert(agrees == !reached.source_conflicts(source, content@));
                    }
                    if !agrees {
                        proof {
                            if start.with_sources(session, from as int, to as int) is Some {
                                lemma_sources_shorter(
                                    start,
                                    session,
                                    from as int,
                                    i + 1,
                                    to as int,
                                );
                            }
                        }
                        return false;
                    }
                    let ghost earlier = seen@;
                    let ghost added = metadata@;
                    seen.put(key, metadata);
                    proof {
                        let next = reached.with_source(source, content@);
                        lemma_bodies_frame(reached, source, body_pieces(content@));
                        let before = reached.evidence_metadata;
                        assert(next.evidence_metadata == before.insert(key, added));
                        assert(next.evidence_metadata
                            =~= start.evidence_metadata.union_prefer_right(
                            seen@.map_values(|metadata: StoredEvidenceMetadata| metadata@),
                        ));
                        reached = next;
                    }
                },
                None => {},
            }
            i = i + 1;
        }
        true
    }

    /// Runs one step of the collection of sources. Returns whether more is to be read.
    pub(crate) fn backfill_evidence_projection(&mut self, session: SessionId) -> (r: Result<
        bool,
        StoreError,
    >)
        ensures
            match old(self)@.evidence_backfill(session) {
                Ok((store, pending)) => final(self)@ == store && r == Ok::<bool, StoreError>(
                    pending,
                ),
                Err(error) => final(self)@ == old(self)@ && r == Err::<bool, StoreError>(error),
            },
    {
        let ghost start = self@;
        let state = match self.projection_state(session, &self.evidence_projections) {
            Ok(state) => state,
            Err(error) => {
                return Err(error);
            },
        };
        if state.complete {
            return Ok(false);
        }
        let (from, to) = self.step_places(session, state);
        if !self.sources_agree(session, from, to) {
            return Err(
                StoreError::Corrupt {
                    message: "evidence source projection conflicts with durable history",
                },
            );
        }
        let mut i: usize = from;
        while i < to
            invariant
                from <= i <= to <= start.history(session).len(),
                start.with_sources(session, from as int, i as int) == Some(self@),
                start.with_sources(session, from as int, to as int) is Some,
            decreases to - i,
        {
            let ghost before = self@;
            proof {
                lemma_sources_frame(start, session, from as int, i as int);
                lemma_sources_shorter(start, session, from as int, i + 1, to as int);
                assert(before.history(session) == start.history(session));
            }
            match self.journal_source(session, i) {
                Some((source, content)) => {
                    let _ = self.sync_evidence_source(source, &content);
                },
                None => {},
            }
            i = i + 1;
        }
        let ghost collected = self@;
        proof {
            lemma_sources_frame(start, session, from as int, to as int);
        }
        self.evidence_projections.put(
            make_session_key(session),
            ProjectionState {
                snapshot_through: state.snapshot_through,
                before: SessionSeq(from as u64 + 1),
                complete: from == 0,
            },
        );
        proof {
            assert(self@ =~= (StoreView {
                evidence_projections: start.evidence_projections.insert(
                    session_key(session),
                    stepped(state, from as int),
                ),
                ..collected
            }));
        }
        Ok(from > 0)
    }
}

/// A page of results by its values.
#[verifier::ext_equal]
pub ghost struct ResultPageView {
    pub items: Seq<ResultSummaryView>,
    pub older_cursor: Option<HistoryCursor>,
    pub snapshot_through: SessionSeq,
    pub projection_pending: bool,
}

impl View for ResultPage {
    type V = ResultPageView;

    open spec fn view(&self) -> ResultPageView {
        ResultPageView {
            items: summary_views(self.items@),
            older_cursor: self.older_cursor,
            snapshot_through: self.snapshot_through,
            projection_pending: self.projection_pending,
        }
    }
}

/// The range of the results of a session before a position.
pub open spec fn results_before(session: SessionId, before: SessionSeq) -> KeyRange {
    KeyRange { owner: Some(session.0), item: None, before: Some(result_key(session, before)) }
}

/// The version of a listed result.
pub open spec fn version_of() -> spec_fn(ResultSummaryView) -> int {
    |item: ResultSummaryView| item.result.version.0 as int
}

/// Whether a result belongs on a page of a session's results before a position of a snapshot.
pub open spec fn on_page(
    result: ResultRef,
    session: SessionId,
    before: SessionSeq,
    through: SessionSeq,
) -> bool {
    &&& result.session == session
    &&& result.version.0 < before.0
    &&& result.version.0 <= through.0
}

impl StoreView {
    /// Where a page of results ends: at the cursor, else behind the whole journal.
    pub open spec fn results_end(self, session: SessionId, cursor: Option<HistoryCursor>) -> Result<
        (SessionSeq, SessionSeq),
        StoreError,
    > {
        match cursor {
            Some(cursor) => Ok((cursor.before, cursor.through)),
            None => if self.history(session).len() >= u64::MAX {
                Err(StoreError::RevisionExhausted)
            } else {
                Ok(
                    (
                        self.next_seq(session),
                        SessionSeq(self.history(session).len() as u64),
                    ),
                )
            },
        }
    }

    /// A page of the collected results of a session, newest last.
    pub open spec fn result_page(
        self,
        session: SessionId,
        cursor: Option<HistoryCursor>,
        limit: usize,
        pending: bool,
    ) -> Result<ResultPageView, StoreError> {
        match self.results_end(session, cursor) {
            Err(error) => Err(error),
            Ok((before, through)) => {
                let all = listing(self.results.dom(), results_before(session, before));
                let keys = last_of(all, at_least_one(limit) as nat);
                let values = keys.map_values(|key: DocumentKey| self.results[key].public());
                let items = sorted_by(values, version_of());
                if forall|i: int| #![trigger values[i]]
                    0 <= i < values.len() ==> on_page(values[i].result, session, before, through) {
                    Ok(
                        ResultPageView {
                            items,
                            older_cursor: if all.len() > at_least_one(limit) {
                                Some(
                                    HistoryCursor {
                                        session,
                                        before: items[0].result.version,
                                        through,
                                    },
                                )
                            } else {
                                None
                            },
                            snapshot_through: through,
                            projection_pending: pending,
                        },
                    )
                } else {
                    Err(
                        StoreError::Corrupt {
                            message: "result record is stored under the wrong key range",
                        },
                    )
                }
            },
        }
    }

    /// The result that a reference names: the collected one, else the one in the journal.
    pub open spec fn find_result(self, result: ResultRef) -> Result<
        Option<StoredResultView>,
        StoreError,
    > {
        let key = result_key(result.session, result.version);
        if self.results.dom().contains(key) {
            if self.results[key].result == result {
                Ok(Some(self.results[key]))
            } else {
                Err(
                    StoreError::Corrupt {
                        message: "result projection is stored under the wrong key",
                    },
                )
            }
        } else if 1 <= result.version.0 <= self.history(result.session).len() {
            match self.result_in(result.session, result.version.0 - 1) {
                Some(found) => if found.result == result {
                    Ok(Some(found))
                } else {
                    Ok(None)
                },
                None => Ok(None),
            }
        } else {
            Ok(None)
        }
    }
}

/// Puts a summary in its place by version.
fn insert_by_version(items: &mut Vec<ResultSummary>, item: ResultSummary)
    ensures
        summary_views(final(items)@) == ({
            let views = summary_views(old(items)@);
            views.insert(
                crate::seqs::slot(views.map_values(version_of()), item@.result.version.0 as int),
                item@,
            )
        }),
{
    let ghost views = summary_views(items@);
    let ghost keys = views.map_values(version_of());
    let version: u64 = item.result.version.0;
    let mut at: usize = items.len();
    while at > 0 && items[at - 1].result.version.0 > version
        invariant
            at <= items@.len(),
            views == summary_views(items@),
            keys == views.map_values(version_of()),
            keys.len() == items@.len(),
            forall|i: int| at <= i < keys.len() ==> keys[i] > version,
        decreases at,
    {
        at = at - 1;
        proof {
            assert(keys[at as int] == items@[at as int].result.version.0);
        }
    }
    proof {
        if at > 0 {
            assert(keys[at - 1] == items@[at - 1].result.version.0);
        }
        lemma_slot(keys, version as int, at as int);
    }
    let ghost before = items@;
    let ghost value = item@;
    items.insert(at, item);
    proof {
        assert(summary_views(items@) =~= views.insert(at as int, value));
    }
}

/// Whether asking for a page of results gives this store and this answer.
pub open spec fn pages_results(
    before: StoreView,
    session: SessionId,
    cursor: Option<HistoryCursor>,
    limit: usize,
    after: StoreView,
    r: Result<ResultPage, StoreError>,
) -> bool {
    match before.result_backfill(session) {
        Ok((store, pending)) => {
            &&& after == store
            &&& match store.result_page(session, cursor, limit, pending) {
                Ok(view) => r matches Ok(page) && page@ == view,
                Err(error) => r matches Err(e) && e == error,
            }
        },
        Err(error) => {
            &&& after == before
            &&& r matches Err(e) && e == error
        },
    }
}

/// Whether this is the result that a reference names.
pub open spec fn gives_result(
    store: StoreView,
    result: ResultRef,
    r: Result<Option<ResultSummary>, StoreError>,
) -> bool {
    match store.find_result(result) {
        Ok(Some(view)) => r matches Ok(Some(found)) && found@ == view.public(),
        Ok(None) => r matches Ok(None),
        Err(error) => r matches Err(e) && e == error,
    }
}

/// Whether this is the artifact that a reference names.
pub open spec fn gives_artifact(
    store: StoreView,
    result: ResultRef,
    r: Result<Option<ResultArtifact>, StoreError>,
) -> bool {
    match store.find_result(result) {
        Ok(Some(view)) => {
            &&& r matches Ok(Some(artifact))
            &&& artifact.result == view.result
            &&& artifact.outcome == view.outcome
            &&& artifact.summary@ == view.summary
            &&& texts(artifact.remaining@) == view.remaining
            &&& artifact.evidence_count == view.evidence.len()
        },
        Ok(None) => r matches Ok(None),
        Err(error) => r matches Err(e) && e == error,
    }
}

impl DataStore {
    /// A page of results, without the collection before it.
    fn list_results(
        &self,
        session: SessionId,
        cursor: Option<HistoryCursor>,
        limit: usize,
        pending: bool,
    ) -> (r: Result<ResultPage, StoreError>)
        ensures
            match self@.result_page(session, cursor, limit, pending) {
                Ok(view) => r matches Ok(page) && page@ == view,
                Err(error) => r matches Err(e) && e == error,
            },
    {
        let wanted: usize = if limit < 1 {
            1
        } else {
            limit
        };
        let (before, through) = match cursor {
            Some(cursor) => (cursor.before(), cursor.snapshot_through()),
            None => {
                let through = self.history_through(session);
                if through.0 == u64::MAX {
                    return Err(StoreError::RevisionExhausted);
                }
                (SessionSeq(through.0 + 1), through)
            },
        };
        let range = KeyRange {
            owner: Some(session.0),
            item: None,
            before: Some(make_result_key(session, before)),
        };
        let (keys, older) = self.results.recent(&range, wanted);
        proof {
            assert(self@.results.dom() =~= self.results@.dom());
        }
        let ghost values = keys@.map_values(|key: DocumentKey| self@.results[key].public());
        let mut items: Vec<ResultSummary> = Vec::new();
        let mut i: usize = 0;
        proof {
            assert(summary_views(items@) =~= sorted_by(values.take(0), version_of()));
        }
        while i < keys.len()
            invariant
                i <= keys@.len(),
                values == keys@.map_values(|key: DocumentKey| self@.results[key].public()),
                summary_views(items@) == sorted_by(values.take(i as int), version_of()),
                items@.len() == i,
                forall|j: int| #![trigger values[j]]
                    0 <= j < i ==> on_page(values[j].result, session, before, through),
                forall|j: int| #![trigger keys@[j]]
                    0 <= j < keys@.len() ==> self.results@.dom().contains(keys@[j]),
                self@.results_end(session, cursor) == Ok::<(SessionSeq, SessionSeq), StoreError>(
                    (before, through),
                ),
                keys@ == last_of(
                    listing(self@.results.dom(), results_before(session, before)),
                    at_least_one(limit) as nat,
                ),
            decreases keys@.len() - i,
        {
            proof {
                assert(self.results@.dom().contains(keys@[i as int]));
                assert(values[i as int] == self@.results[keys@[i as int]].public());
                assert(values.take(i + 1).drop_last() =~= values.take(i as int));
            }
            let stored = self.results.get(&keys[i]).unwrap();
            if stored.result.session != session || stored.result.version.0 >= before.0
                || stored.result.version.0 > through.0 {
                proof {
                    assert(!on_page(values[i as int].result, session, before, through));
                }
                return Err(
                    StoreError::Corrupt {
                        message: "result record is stored under the wrong key range",
                    },
                );
            }
            let item = stored.public();
            proof {
                assert(item@ =~= values[i as int]);
                assert(values.take(i + 1).last() == values[i as int]);
            }
            insert_by_version(&mut items, item);
            proof {
                crate::seqs::lemma_slot_bounds(
                    sorted_by(values.take(i as int), version_of()).map_values(version_of()),
                    values[i as int].result.version.0 as int,
                );
                assert(summary_views(items@).len() == i + 1);
            }
            i = i + 1;
        }
        proof {
            assert(values.take(i as int) =~= values);
        }
        let older_cursor = if older {
            proof {
                assert(summary_views(items@)[0] == items@[0]@);
            }
            Some(HistoryCursor::new(session, items[0].result.version, through))
        } else {
            None
        };
        Ok(
            ResultPage {
                items,
                older_cursor,
                snapshot_through: through,
                projection_pending: pending,
            },
        )
    }

    /// A page of the results of a session, newest last, after one step of their collection.
    pub fn results(
        &mut self,
        session: SessionId,
        cursor: Option<HistoryCursor>,
        limit: usize,
    ) -> (r: Result<ResultPage, StoreError>)
        ensures
            pages_results(old(self)@, session, cursor, limit, final(self)@, r),
    {
        match self.backfill_result_projection(session) {
            Ok(pending) => self.list_results(session, cursor, limit, pending),
            Err(error) => Err(error),
        }
    }

    /// The result that a reference names.
    pub(crate) fn stored_result(&self, result: ResultRef) -> (r: Result<
        Option<StoredResult>,
        StoreError,
    >)
        ensures
            match self@.find_result(result) {
                Ok(Some(view)) => r matches Ok(Some(found)) && found@ == view,
                Ok(None) => r matches Ok(None),
                Err(error) => r matches Err(e) && e == error,
            },
    {
        match self.results.get(&make_result_key(result.session, result.version)) {
            Some(saved) => {
                if saved.result == result {
                    return Ok(Some(saved.copy()));
                }
                return Err(
                    StoreError::Corrupt {
                        message: "result projection is stored under the wrong key",
                    },
                );
            },
            None => {},
        }
        let count: usize = match self.journals.get(&make_session_key(result.session)) {
            Some(journal) => journal.entries.len(),
            None => 0,
        };
        proof {
            assert(count == self@.history(result.session).len());
        }
        if result.version.0 < 1 || result.version.0 > count as u64 {
            return Ok(None);
        }
        let place: usize = (result.version.0 - 1) as usize;
        match self.journal_result(result.session, place) {
            Some(found) => if found.result == result {
                Ok(Some(found))
            } else {
                Ok(None)
            },
            None => Ok(None),
        }
    }

    /// The result that a reference names, as a list shows it.
    pub fn result(&self, result: ResultRef) -> (r: Result<Option<ResultSummary>, StoreError>)
        ensures
            gives_result(self@, result, r),
    {
        match self.stored_result(result) {
            Ok(Some(saved)) => {
                let shown = saved.public();
                proof {
                    assert(shown@ =~= saved@.public());
                }
                Ok(Some(shown))
            },
            Ok(None) => Ok(None),
            Err(error) => Err(error),
        }
    }

    /// The result that a reference names, with the number of sources that it cites.
    pub fn result_artifact(&self, result: ResultRef) -> (r: Result<
        Option<ResultArtifact>,
        StoreError,
    >)
        ensures
            gives_artifact(self@, result, r),
    {
        match self.stored_result(result) {
            Ok(Some(saved)) => {
                let evidence_count: usize = saved.evidence.len();
                Ok(
                    Some(
                        ResultArtifact {
                            result: saved.result,
                            outcome: saved.outcome,
                            summary: saved.summary,
                            remaining: saved.remaining,
                            evidence_count,
                        },
                    ),
                )
            },
            Ok(None) => Ok(None),
            Err(error) => Err(error),
        }
    }

    /// Whether a result cites a source.
    pub(crate) fn result_cites(&self, result: ResultRef, source: EvidenceRef) -> (r: Result<
        bool,
        StoreError,
    >)
        ensures
            match self@.find_result(result) {
                Ok(Some(view)) => r == Ok::<bool, StoreError>(view.evidence.contains(source)),
                Ok(None) => r == Ok::<bool, StoreError>(false),
                Err(error) => r == Err::<bool, StoreError>(error),
            },
    {
        match self.stored_result(result) {
            Ok(Some(saved)) => {
                let mut i: usize = 0;
                while i < saved.evidence.len()
                    invariant
                        i <= saved.evidence@.len(),
                        forall|j: int| 0 <= j < i ==> saved.evidence@[j] != source,
                        self@.find_result(result) == Ok::<Option<StoredResultView>, StoreError>(
                            Some(saved@),
                        ),
                    decreases saved.evidence@.len() - i,
                {
                    if saved.evidence[i] == source {
                        proof {
                            assert(saved@.evidence[i as int] == source);
                        }
                        return Ok(true);
                    }
                    i = i + 1;
                }
                Ok(false)
            },
            Ok(None) => Ok(false),
            Err(error) => Err(error),
        }
    }

    /// Runs one step of both collections. Returns whether more is to be read.
    pub(crate) fn evidence_projection_pending(&mut self, session: SessionId) -> (r: Result<
        bool,
        StoreError,
    >)
        ensures
            match old(self)@.both_backfills(session) {
                (store, outcome) => final(self)@ == store && r == outcome,
            },
    {
        match self.backfill_result_projection(session) {
            Ok(first) => match self.backfill_evidence_projection(session) {
                Ok(second) => Ok(first || second),
                Err(error) => Err(error),
            },
            Err(error) => Err(error),
        }
    }
}

/// Whether a cited source can be shown, by its values.
pub ghost enum EvidenceAvailabilityView {
    Available { kind: EvidenceSourceKind, title: Seq<char> },
    Private,
    Missing,
}

impl View for EvidenceAvailability {
    type V = EvidenceAvailabilityView;

    open spec fn view(&self) -> EvidenceAvailabilityView {
        match self {
            EvidenceAvailability::Available { kind, title } =>
                EvidenceAvailabilityView::Available { kind: *kind, title: title@ },
            EvidenceAvailability::Private => EvidenceAvailabilityView::Private,
            EvidenceAvailability::Missing => EvidenceAvailabilityView::Missing,
        }
    }
}

/// Listed sources by their values.
pub open spec fn evidence_views(items: Seq<EvidenceSummary>) -> Seq<
    (EvidenceRef, EvidenceAvailabilityView),
> {
    items.map_values(|item: EvidenceSummary| (item.source, item.availability@))
}

/// The part of a result's sources that a page shows.
pub open spec fn evidence_slice(sources: Seq<EvidenceRef>, start: int, limit: int) -> Seq<
    EvidenceRef,
> {
    if start >= sources.len() {
        Seq::empty()
    } else if start + limit < sources.len() {
        sources.subrange(start, start + limit)
    } else {
        sources.subrange(start, sources.len() as int)
    }
}

impl StoreView {
    /// One step of both collections: the store after it, and whether more is to be read.
    pub open spec fn both_backfills(self, session: SessionId) -> (
        StoreView,
        Result<bool, StoreError>,
    ) {
        match self.result_backfill(session) {
            Err(error) => (self, Err(error)),
            Ok((store, first)) => match store.evidence_backfill(session) {
                Err(error) => (store, Err(error)),
                Ok((after, second)) => (after, Ok(first || second)),
            },
        }
    }

    /// Whether a source can be shown.
    pub open spec fn availability(self, source: EvidenceRef) -> EvidenceAvailabilityView {
        if self.evidence_metadata.dom().contains(evidence_key(source)) {
            match self.evidence_metadata[evidence_key(source)] {
                StoredEvidenceMetadataView::Public { kind, title, .. } =>
                    EvidenceAvailabilityView::Available { kind, title },
                StoredEvidenceMetadataView::Private => EvidenceAvailabilityView::Private,
            }
        } else {
            EvidenceAvailabilityView::Missing
        }
    }
}

/// Whether asking for a page of the sources of a result gives this store and this answer.
pub open spec fn pages_evidence(
    before: StoreView,
    result: ResultRef,
    cursor: Option<EvidenceCursor>,
    limit: usize,
    after: StoreView,
    r: Result<Option<EvidencePage>, StoreError>,
) -> bool {
    let (collected, outcome) = before.both_backfills(result.session);
    let start = match cursor {
        Some(cursor) => cursor.offset as int,
        None => 0,
    };
    match outcome {
        Err(error) => {
            &&& after == collected
            &&& r matches Err(e) && e == error
        },
        Ok(pending) => match collected.find_result(result) {
            Err(error) => {
                &&& after == collected
                &&& r matches Err(e) && e == error
            },
            Ok(None) => after == collected && r matches Ok(None),
            Ok(Some(found)) => {
                let slice = evidence_slice(
                    found.evidence,
                    start,
                    at_least_one(limit),
                );
                let migration = migrate(collected, slice);
                &&& after == migration.store
                &&& r matches Ok(Some(page))
                &&& page.result == result
                &&& evidence_views(page.items@) == slice.map_values(
                    |source: EvidenceRef|
                        (source, migration.store.availability(source)),
                )
                &&& page.next_cursor == (if start + at_least_one(limit)
                    < found.evidence.len() {
                    Some(
                        EvidenceCursor {
                            result,
                            offset: (start + at_least_one(limit)) as usize,
                        },
                    )
                } else {
                    None
                })
                &&& page.projection_pending == (pending || migration.pending)
            },
        },
    }
}

impl DataStore {
    /// Whether a source can be shown.
    fn source_availability(&self, source: EvidenceRef) -> (r: EvidenceAvailability)
        ensures
            r@ == self@.availability(source),
    {
        match self.evidence_metadata.get(&make_evidence_key(source)) {
            Some(metadata) => match metadata {
                StoredEvidenceMetadata::Public { kind, title, .. } =>
                    EvidenceAvailability::Available { kind: *kind, title: title.clone() },
                StoredEvidenceMetadata::Private => EvidenceAvailability::Private,
            },
            None => EvidenceAvailability::Missing,
        }
    }

    /// A page of the sources that a result cites, after one step of their collection; nothing
    /// where there is no such result.
    pub fn result_evidence(
        &mut self,
        result: ResultRef,
        cursor: Option<EvidenceCursor>,
        limit: usize,
    ) -> (r: Result<Option<EvidencePage>, StoreError>)
        ensures
            pages_evidence(old(self)@, result, cursor, limit, final(self)@, r),
    {
        let pending = match self.evidence_projection_pending(result.session) {
            Ok(pending) => pending,
            Err(error) => {
                return Err(error);
            },
        };
        let saved = match self.stored_result(result) {
            Ok(Some(saved)) => saved,
            Ok(None) => {
                return Ok(None);
            },
            Err(error) => {
                return Err(error);
            },
        };
        let wanted: usize = if limit < 1 {
            1
        } else {
            limit
        };
        let start: usize = match cursor {
            Some(cursor) => cursor.offset(),
            None => 0,
        };
        let total: usize = saved.evidence.len();
        let end: usize = if start >= total || total - start <= wanted {
            total
        } else {
            start + wanted
        };
        let sources = if start < total {
            copy_sources(&saved.evidence, start, end)
        } else {
            Vec::new()
        };
        proof {
            assert(sources@ =~= evidence_slice(saved@.evidence, start as int, wanted as int));
        }
        let migrating = self.prepare_evidence_metadata(&sources);
        let ghost store = self@;
        let mut items: Vec<EvidenceSummary> = Vec::new();
        let mut i: usize = 0;
        while i < sources.len()
            invariant
                i <= sources@.len(),
                store == self@,
                items@.len() == i,
                forall|j: int| #![trigger items@[j]]
                    0 <= j < i ==> items@[j].source == sources@[j] && items@[j].availability@
                        == store.availability(sources@[j]),
            decreases sources@.len() - i,
        {
            items.push(
                EvidenceSummary {
                    source: sources[i],
                    availability: self.source_availability(sources[i]),
                },
            );
            i = i + 1;
        }
        proof {
            assert(evidence_views(items@) =~= sources@.map_values(
                |source: EvidenceRef| (source, store.availability(source)),
            ));
        }
        Ok(
            Some(
                EvidencePage {
                    result,
                    items,
                    next_cursor: if end < total {
                        Some(EvidenceCursor::new(result, end))
                    } else {
                        None
                    },
                    projection_pending: pending || migrating,
                },
            ),
        )
    }
}

} // verus!
