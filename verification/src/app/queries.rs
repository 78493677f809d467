//! What the application answers about its stored data.

use vstd::prelude::*;
use vstd::utf8::encode_utf8;

use super::App;
use crate::api::{
    AcceptanceCursor, AcceptancePage, EvidenceAvailability, EvidenceCursor, EvidencePage,
    EvidenceRef, EvidenceSourcePage, HistoryCursor, ResultArtifact, ResultPage, ResultRef,
    SessionInfo, UnresolvedWriteView, WorkspaceOverview,
};
use crate::document::DocumentKey;
use crate::error::{Error, StoreError};
use crate::ids::{SessionId, WorkspaceId};
use crate::persistence::evidence::{migrate, page_budget, page_of, Walk};
use crate::persistence::keys::{evidence_key, workspace_key};
use crate::persistence::overview::is_attention;
use crate::persistence::results::{evidence_slice, evidence_views};
use crate::persistence::{texts, StoreView, StoredEvidenceMetadata};
use crate::session::requests::{check_history_cursor, page_limit};

verus! {

/// The most entries on a page of results, sources or decisions.
pub const PAGE_LIMIT: usize = 32;

/// The most bytes of a source on one page.
pub const SOURCE_PAGE_BYTES: usize = 65536;

/// A page size within its bounds.
pub open spec fn clamped(limit: usize, most: usize) -> usize {
    if limit < 1 {
        1
    } else if limit > most {
        most
    } else {
        limit
    }
}

/// Whether a page of a source shows what the store has of it: its text from an offset on, nothing
/// where it is private or missing.
pub open spec fn shows_source(
    store: StoreView,
    source: EvidenceRef,
    offset: u64,
    max_bytes: usize,
    pending: bool,
    page: EvidenceSourcePage,
) -> bool {
    let key = evidence_key(source);
    &&& page.source == source
    &&& page.availability@ == store.availability(source)
    &&& page.projection_pending == pending
    &&& if store.evidence_metadata.dom().contains(key) && store.evidence_metadata[key] is Public {
        let byte_len = store.evidence_metadata[key]->byte_len;
        let read = page_of(
            store.evidence_metadata[key]->chunks,
            store.evidence_bodies,
            source,
            offset,
            page_budget(max_bytes),
            byte_len,
        );
        &&& read matches Walk::Read { bytes, position }
        &&& page.text matches Some(text)
        &&& encode_utf8(text@) == bytes
        &&& page.offset == offset
        &&& page.next_offset == (if position < byte_len {
            Some(position as u64)
        } else {
            None
        })
        &&& page.total_bytes == Some(byte_len)
    } else {
        page.text is None && page.offset == 0 && page.next_offset is None && page.total_bytes is None
    }
}

/// Why a source cannot be read, if it cannot.
pub open spec fn source_failure(
    store: StoreView,
    source: EvidenceRef,
    offset: u64,
    max_bytes: usize,
) -> Option<StoreError> {
    let key = evidence_key(source);
    if store.evidence_metadata.dom().contains(key) && store.evidence_metadata[key] is Public {
        match page_of(
            store.evidence_metadata[key]->chunks,
            store.evidence_bodies,
            source,
            offset,
            page_budget(max_bytes),
            store.evidence_metadata[key]->byte_len,
        ) {
            Walk::Failed(error) => Some(error),
            Walk::Read { .. } => None,
        }
    } else {
        None
    }
}

/// Whether these are the sessions of a workspace.
pub open spec fn lists_sessions(
    app: App,
    workspace: WorkspaceId,
    r: Result<Vec<SessionInfo>, Error>,
) -> bool {
    if app.closed {
        r matches Err(error) && error == Error::Closed
    } else if !app.store@.has_workspace(workspace) {
        r matches Err(error) && error == Error::WorkspaceNotFound
    } else {
        r matches Ok(sessions) && sessions@ == app.store@.listed_sessions(
            workspace,
        ).map_values(|key: DocumentKey| app.store@.sessions[key].info)
    }
}

/// Whether this is the session that was active last in a workspace.
pub open spec fn recalls_active(
    app: App,
    workspace: WorkspaceId,
    r: Result<Option<SessionId>, Error>,
) -> bool {
    if app.closed {
        r == Err::<Option<SessionId>, Error>(Error::Closed)
    } else if !app.store@.has_workspace(workspace) {
        r == Err::<Option<SessionId>, Error>(Error::WorkspaceNotFound)
    } else {
        r == Ok::<Option<SessionId>, Error>(
            if app.store@.last_active.dom().contains(workspace_key(workspace)) {
                Some(app.store@.last_active[workspace_key(workspace)])
            } else {
                None
            },
        )
    }
}

/// Whether noting the active session gives this application and this answer.
pub open spec fn notes_active(
    app: App,
    workspace: WorkspaceId,
    session: SessionId,
    next: App,
    r: Result<(), Error>,
) -> bool {
    &&& next == (App { store: next.store, ..app })
    &&& {
        let before = app.store@;
        if app.closed {
            r == Err::<(), Error>(Error::Closed) && next.store@ == before
        } else if !before.has_workspace(workspace) {
            r == Err::<(), Error>(Error::WorkspaceNotFound) && next.store@ == before
        } else if !before.has_session(session) || before.session(session).info.workspace
            != workspace {
            r == Err::<(), Error>(Error::SessionNotFound) && next.store@ == before
        } else {
            r is Ok && next.store@ == (StoreView {
                last_active: before.last_active.insert(workspace_key(workspace), session),
                ..before
            })
        }
    }
}

/// Whether asking for an overview gives this application and this answer.
pub open spec fn overviews(
    app: App,
    workspace: WorkspaceId,
    next: App,
    r: Result<WorkspaceOverview, Error>,
) -> bool {
    &&& next == (App { store: next.store, ..app })
    &&& {
        let before = app.store@;
        if app.closed {
            &&& r matches Err(error)
            &&& error == Error::Closed
            &&& next.store@ == before
        } else if !before.has_workspace(workspace) {
            &&& r matches Err(error)
            &&& error == Error::WorkspaceNotFound
            &&& next.store@ == before
        } else {
            match before.attention_backfill() {
                Err(failure) => {
                    &&& next.store@ == before
                    &&& r matches Err(error)
                    &&& failure.becomes(error)
                },
                Ok((store, pending)) => {
                    &&& next.store@ == store
                    &&& match store.attention_problem(workspace) {
                        Some(failure) => r matches Err(error) && failure.becomes(error),
                        None => {
                            let writes = store.unsettled_writes(workspace);
                            &&& r matches Ok(overview)
                            &&& overview.workspace.id == workspace
                            &&& overview.workspace.root@ == before.root_of(workspace)
                            &&& overview.sessions@ == store.listed_sessions(
                                workspace,
                            ).map_values(|key: DocumentKey| store.session_summary(key))
                            &&& is_attention(
                                overview.attention@,
                                store.waiting_records(workspace),
                                writes,
                            )
                            &&& overview.unresolved_writes@ == writes
                            &&& overview.attention_projection_pending == pending
                        },
                    }
                },
            }
        }
    }
}

/// Whether asking for results gives this application and this answer.
pub open spec fn lists_results(
    app: App,
    session: SessionId,
    cursor: Option<HistoryCursor>,
    limit: usize,
    next: App,
    r: Result<ResultPage, Error>,
) -> bool {
    &&& next == (App { store: next.store, ..app })
    &&& {
        let before = app.store@;
        if app.closed {
            &&& r matches Err(error)
            &&& error == Error::Closed
            &&& next.store@ == before
        } else if cursor is Some && cursor->0.session != session {
            &&& r matches Err(error)
            &&& error.is_invalid("history cursor belongs to another session"@)
            &&& next.store@ == before
        } else if !before.has_session(session) {
            &&& r matches Err(error)
            &&& error == Error::SessionNotFound
            &&& next.store@ == before
        } else {
            match before.result_backfill(session) {
                Err(failure) => {
                    &&& next.store@ == before
                    &&& r matches Err(error)
                    &&& failure.becomes(error)
                },
                Ok((store, pending)) => {
                    &&& next.store@ == store
                    &&& match store.result_page(
                        session,
                        cursor,
                        clamped(limit, PAGE_LIMIT),
                        pending,
                    ) {
                        Ok(view) => r matches Ok(page) && page@ == view,
                        Err(failure) => r matches Err(error) && failure.becomes(error),
                    }
                },
            }
        }
    }
}

/// Whether this is the artifact of a result.
pub open spec fn shows_artifact(
    app: App,
    result: ResultRef,
    r: Result<ResultArtifact, Error>,
) -> bool {
    if app.closed {
        r matches Err(error) && error == Error::Closed
    } else {
        match app.store@.find_result(result) {
            Ok(Some(view)) => {
                &&& r matches Ok(artifact)
                &&& artifact.result == view.result
                &&& artifact.outcome == view.outcome
                &&& artifact.summary@ == view.summary
                &&& texts(artifact.remaining@) == view.remaining
                &&& artifact.evidence_count == view.evidence.len()
            },
            Ok(None) => r matches Err(error) && error.is_invalid(
                "result artifact not found"@,
            ),
            Err(failure) => r matches Err(error) && failure.becomes(error),
        }
    }
}

/// Whether asking for the sources of a result gives this application and this answer.
pub open spec fn lists_evidence(
    app: App,
    result: ResultRef,
    cursor: Option<EvidenceCursor>,
    limit: usize,
    next: App,
    r: Result<EvidencePage, Error>,
) -> bool {
    &&& next == (App { store: next.store, ..app })
    &&& {
        let before = app.store@;
        let count = clamped(limit, PAGE_LIMIT) as int;
        let start = match cursor {
            Some(cursor) => cursor.offset as int,
            None => 0,
        };
        if app.closed {
            &&& r matches Err(error)
            &&& error == Error::Closed
            &&& next.store@ == before
        } else if cursor is Some && cursor->0.result != result {
            &&& r matches Err(error)
            &&& error.is_invalid("evidence cursor belongs to another result"@)
            &&& next.store@ == before
        } else {
            let (collected, outcome) = before.both_backfills(result.session);
            match outcome {
                Err(failure) => {
                    &&& next.store@ == collected
                    &&& r matches Err(error)
                    &&& failure.becomes(error)
                },
                Ok(pending) => match collected.find_result(result) {
                    Err(failure) => {
                        &&& next.store@ == collected
                        &&& r matches Err(error)
                        &&& failure.becomes(error)
                    },
                    Ok(None) => {
                        &&& next.store@ == collected
                        &&& r matches Err(error)
                        &&& error.is_invalid("evidence result not found"@)
                    },
                    Ok(Some(found)) => {
                        let slice = evidence_slice(found.evidence, start, count);
                        let migration = migrate(collected, slice);
                        &&& next.store@ == migration.store
                        &&& r matches Ok(page)
                        &&& page.result == result
                        &&& evidence_views(page.items@) == slice.map_values(
                            |source: EvidenceRef|
                                (source, migration.store.availability(source)),
                        )
                        &&& page.next_cursor == (if start + count < found.evidence.len() {
                            Some(EvidenceCursor { result, offset: (start + count) as usize })
                        } else {
                            None
                        })
                        &&& page.projection_pending == (pending || migration.pending)
                    },
                },
            }
        }
    }
}

/// Whether reading a source gives this application and this answer.
pub open spec fn reads_source(
    app: App,
    result: ResultRef,
    source: EvidenceRef,
    offset: u64,
    max_bytes: usize,
    next: App,
    r: Result<EvidenceSourcePage, Error>,
) -> bool {
    &&& next == (App { store: next.store, ..app })
    &&& {
        let before = app.store@;
        let bytes = clamped(max_bytes, SOURCE_PAGE_BYTES);
        if app.closed {
            &&& r matches Err(error)
            &&& error == Error::Closed
            &&& next.store@ == before
        } else if source.session != result.session {
            &&& r matches Err(error)
            &&& error.is_invalid("evidence source belongs to another session"@)
            &&& next.store@ == before
        } else {
            let (collected, outcome) = before.both_backfills(result.session);
            match outcome {
                Err(failure) => {
                    &&& next.store@ == collected
                    &&& r matches Err(error)
                    &&& failure.becomes(error)
                },
                Ok(pending) => match collected.find_result(result) {
                    Err(failure) => {
                        &&& next.store@ == collected
                        &&& r matches Err(error)
                        &&& failure.becomes(error)
                    },
                    Ok(found) => if found is None || !found->0.evidence.contains(source) {
                        &&& next.store@ == collected
                        &&& r matches Err(error)
                        &&& error.is_invalid("source is not cited by this result"@)
                    } else {
                        let store = migrate(collected, seq![source]).store;
                        &&& next.store@ == store
                        &&& match source_failure(store, source, offset, bytes) {
                            Some(failure) => r matches Err(error) && failure.becomes(error),
                            None => r matches Ok(page) && shows_source(
                                store,
                                source,
                                offset,
                                bytes,
                                pending,
                                page,
                            ),
                        }
                    },
                },
            }
        }
    }
}

/// Whether these are the decisions on a result.
pub open spec fn lists_acceptances(
    app: App,
    result: ResultRef,
    cursor: Option<AcceptanceCursor>,
    limit: usize,
    r: Result<AcceptancePage, Error>,
) -> bool {
    if app.closed {
        r matches Err(error) && error == Error::Closed
    } else if cursor is Some && cursor->0.result != result {
        r matches Err(error) && error.is_invalid(
            "acceptance cursor belongs to another result"@,
        )
    } else {
        match app.store@.find_result(result) {
            Err(failure) => r matches Err(error) && failure.becomes(error),
            Ok(None) => r matches Err(error) && error.is_invalid(
                "acceptance result not found"@,
            ),
            Ok(Some(_)) => match app.store@.acceptance_page(
                result,
                cursor,
                clamped(limit, PAGE_LIMIT),
            ) {
                Ok((items, older)) => {
                    &&& r matches Ok(page)
                    &&& page.items@ == items
                    &&& page.older_cursor == older
                },
                Err(failure) => r matches Err(error) && failure.becomes(error),
            },
        }
    }
}

/// Whether these are the open writes of a workspace.
pub open spec fn lists_open_writes(
    app: App,
    workspace: WorkspaceId,
    r: Result<Vec<UnresolvedWriteView>, Error>,
) -> bool {
    if app.closed {
        r matches Err(error) && error == Error::Closed
    } else if !app.store@.has_workspace(workspace) {
        r matches Err(error) && error == Error::WorkspaceNotFound
    } else {
        r matches Ok(writes) && writes@ == app.store@.unresolved(workspace, None)
    }
}

impl App {
    /// The sessions of a workspace.
    pub fn list_sessions(&self, workspace: WorkspaceId) -> (r: Result<Vec<SessionInfo>, Error>)
        ensures
            lists_sessions(*self, workspace, r),
    {
        if self.closed {
            return Err(Error::Closed);
        }
        match self.find_workspace(workspace) {
            Ok(_) => Ok(self.store.sessions(workspace)),
            Err(error) => Err(error),
        }
    }

    /// The session that was selected last in a workspace.
    pub fn last_active_session(&self, workspace: WorkspaceId) -> (r: Result<
        Option<SessionId>,
        Error,
    >)
        ensures
            recalls_active(*self, workspace, r),
    {
        if self.closed {
            return Err(Error::Closed);
        }
        match self.find_workspace(workspace) {
            Ok(_) => Ok(self.store.last_active_session(workspace)),
            Err(error) => Err(error),
        }
    }

    /// Remembers the session that a frontend selected, for its next start.
    pub fn set_last_active_session(&mut self, workspace: WorkspaceId, session: SessionId) -> (r: Result<
        (),
        Error,
    >)
        ensures
            notes_active(*old(self), workspace, session, *final(self), r),
    {
        if self.closed {
            return Err(Error::Closed);
        }
        match self.find_workspace(workspace) {
            Ok(_) => {},
            Err(error) => {
                return Err(error);
            },
        }
        if self.store.set_last_active_session(workspace, session) {
            Ok(())
        } else {
            Err(Error::SessionNotFound)
        }
    }

    /// What a workspace holds and what waits in it for the user, without opening a session.
    pub fn workspace_overview(&mut self, workspace: WorkspaceId) -> (r: Result<
        WorkspaceOverview,
        Error,
    >)
        ensures
            overviews(*old(self), workspace, *final(self), r),
    {
        if self.closed {
            return Err(Error::Closed);
        }
        let found = match self.find_workspace(workspace) {
            Ok(found) => found,
            Err(error) => {
                return Err(error);
            },
        };
        match self.store.workspace_overview(found) {
            Ok(overview) => Ok(overview),
            Err(error) => Err(error.into_error()),
        }
    }

    /// A page of a session's results.
    pub fn results(
        &mut self,
        session: SessionId,
        cursor: Option<HistoryCursor>,
        limit: usize,
    ) -> (r: Result<ResultPage, Error>)
        ensures
            lists_results(*old(self), session, cursor, limit, *final(self), r),
    {
        if self.closed {
            return Err(Error::Closed);
        }
        match check_history_cursor(session, cursor) {
            Ok(()) => {},
            Err(error) => {
                return Err(error);
            },
        }
        if self.store.session(session).is_none() {
            return Err(Error::SessionNotFound);
        }
        match self.store.results(session, cursor, page_limit(limit, PAGE_LIMIT)) {
            Ok(page) => Ok(page),
            Err(error) => Err(error.into_error()),
        }
    }

    /// One result, without the bodies of its sources.
    pub fn result_artifact(&self, result: ResultRef) -> (r: Result<ResultArtifact, Error>)
        ensures
            shows_artifact(*self, result, r),
    {
        if self.closed {
            return Err(Error::Closed);
        }
        match self.store.result_artifact(result) {
            Ok(Some(artifact)) => Ok(artifact),
            Ok(None) => Err(Error::invalid("result artifact not found")),
            Err(error) => Err(error.into_error()),
        }
    }

    /// A page of the sources that a result cites.
    pub fn result_evidence(
        &mut self,
        result: ResultRef,
        cursor: Option<EvidenceCursor>,
        limit: usize,
    ) -> (r: Result<EvidencePage, Error>)
        ensures
            lists_evidence(*old(self), result, cursor, limit, *final(self), r),
    {
        if self.closed {
            return Err(Error::Closed);
        }
        match cursor {
            Some(cursor) => {
                if cursor.result() != result {
                    return Err(Error::invalid("evidence cursor belongs to another result"));
                }
            },
            None => {},
        }
        match self.store.result_evidence(result, cursor, page_limit(limit, PAGE_LIMIT)) {
            Ok(Some(page)) => Ok(page),
            Ok(None) => Err(Error::invalid("evidence result not found")),
            Err(error) => Err(error.into_error()),
        }
    }

    /// A page of the text of a source, which must be cited by the result. Nothing of a private
    /// source is shown but that it exists.
    pub fn evidence_source(
        &mut self,
        result: ResultRef,
        source: EvidenceRef,
        offset: u64,
        max_bytes: usize,
    ) -> (r: Result<EvidenceSourcePage, Error>)
        ensures
            reads_source(*old(self), result, source, offset, max_bytes, *final(self), r),
    {
        if self.closed {
            return Err(Error::Closed);
        }
        if source.session != result.session {
            return Err(Error::invalid("evidence source belongs to another session"));
        }
        let pending = match self.store.evidence_projection_pending(result.session) {
            Ok(pending) => pending,
            Err(error) => {
                return Err(error.into_error());
            },
        };
        match self.store.result_cites(result, source) {
            Ok(cited) => {
                if !cited {
                    return Err(Error::invalid("source is not cited by this result"));
                }
            },
            Err(error) => {
                return Err(error.into_error());
            },
        }
        let found = match self.store.evidence_source_page_record(
            source,
            offset,
            page_limit(max_bytes, SOURCE_PAGE_BYTES),
        ) {
            Ok(found) => found,
            Err(error) => {
                return Err(error.into_error());
            },
        };
        match found {
            None => Ok(
                EvidenceSourcePage {
                    source,
                    availability: EvidenceAvailability::Missing,
                    text: None,
                    offset: 0,
                    next_offset: None,
                    total_bytes: None,
                    projection_pending: pending,
                },
            ),
            Some(page) => match page.metadata {
                StoredEvidenceMetadata::Private => Ok(
                    EvidenceSourcePage {
                        source,
                        availability: EvidenceAvailability::Private,
                        text: None,
                        offset: 0,
                        next_offset: None,
                        total_bytes: None,
                        projection_pending: pending,
                    },
                ),
                StoredEvidenceMetadata::Public { kind, title, byte_len, .. } => Ok(
                    EvidenceSourcePage {
                        source,
                        availability: EvidenceAvailability::Available { kind, title },
                        text: page.text,
                        offset: page.offset,
                        next_offset: page.next_offset,
                        total_bytes: Some(byte_len),
                        projection_pending: pending,
                    },
                ),
            },
        }
    }

    /// A page of the decisions on a result.
    pub fn acceptances(
        &self,
        result: ResultRef,
        cursor: Option<AcceptanceCursor>,
        limit: usize,
    ) -> (r: Result<AcceptancePage, Error>)
        ensures
            lists_acceptances(*self, result, cursor, limit, r),
    {
        if self.closed {
            return Err(Error::Closed);
        }
        match cursor {
            Some(cursor) => {
                if cursor.result() != result {
                    return Err(Error::invalid("acceptance cursor belongs to another result"));
                }
            },
            None => {},
        }
        match self.store.result(result) {
            Ok(Some(_)) => {},
            Ok(None) => {
                return Err(Error::invalid("acceptance result not found"));
            },
            Err(error) => {
                return Err(error.into_error());
            },
        }
        match self.store.acceptances(result, cursor, page_limit(limit, PAGE_LIMIT)) {
            Ok(page) => Ok(page),
            Err(error) => Err(error.into_error()),
        }
    }

    /// The writes of a workspace that still need inspection.
    pub fn unresolved_writes(&self, workspace: WorkspaceId) -> (r: Result<
        Vec<UnresolvedWriteView>,
        Error,
    >)
        ensures
            lists_open_writes(*self, workspace, r),
    {
        if self.closed {
            return Err(Error::Closed);
        }
        match self.find_workspace(workspace) {
            Ok(_) => Ok(self.store.unresolved_writes(workspace, None)),
            Err(error) => Err(error),
        }
    }
}

} // verus!
