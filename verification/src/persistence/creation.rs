//! Sessions under requests: a repeated request finds its session again, a first title can be
//! replaced once, and each workspace remembers the session that was selected last.

use vstd::prelude::*;

use super::keys::{
    creation_key, make_creation_key, make_session_key, make_workspace_key, session_key,
    workspace_key,
};
use super::sessions::new_session;
use super::{CreationRecord, DataStore, SavedSession, SavedSessionView, StoreView};
use crate::api::{CreateSessionRequest, SessionInfo};
use crate::error::StoreError;
use crate::ids::{SessionId, WorkspaceId};
use crate::text::same_text;

verus! {

impl StoreView {
    /// Whether a request for a session was made before.
    pub open spec fn has_creation(self, request: CreateSessionRequest) -> bool {
        self.creations.dom().contains(creation_key(request.request_id))
    }

    /// What a request for a session was recorded as.
    pub open spec fn creation(self, request: CreateSessionRequest) -> CreationRecord {
        self.creations[creation_key(request.request_id)]
    }

    /// The store with a new session and the request for it.
    pub open spec fn with_creation(self, request: CreateSessionRequest, saved: SavedSessionView) -> StoreView {
        let key = session_key(saved.info.id);
        StoreView {
            creations: self.creations.insert(
                creation_key(request.request_id),
                CreationRecord {
                    session: saved.info.id,
                    workspace: request.workspace,
                    title: request.title,
                },
            ),
            provisional: if request.provisional {
                self.provisional.insert(key, true)
            } else {
                self.provisional.remove(key)
            },
            ..self.with_new_session(saved)
        }
    }

    /// Whether the answer to a request for a session is the right one: a repeated request with the
    /// same workspace and title gets the session that it got first, one with other content gets
    /// nothing, and a new one gets the session under the given identity.
    pub open spec fn creates(
        self,
        id: SessionId,
        request: CreateSessionRequest,
        after: StoreView,
        answer: Result<Option<SavedSession>, StoreError>,
    ) -> bool {
        if self.has_creation(request) {
            let first = self.creation(request);
            &&& after == self
            &&& if first.workspace != request.workspace || first.title@ != request.title@ {
                answer == Ok::<Option<SavedSession>, StoreError>(None)
            } else if !self.has_session(first.session) {
                answer == Err::<Option<SavedSession>, StoreError>(
                    StoreError::Corrupt { message: "session request points to a missing session" },
                )
            } else {
                answer matches Ok(Some(saved)) && saved@ == self.session(first.session)
            }
        } else if !self.is_free(id) {
            &&& after == self
            &&& answer == Err::<Option<SavedSession>, StoreError>(StoreError::RevisionConflict)
        } else {
            &&& answer matches Ok(Some(saved))
            &&& saved@ == (SavedSessionView {
                draft: saved.draft,
                ..new_session(id, request.workspace, request.title)
            })
            &&& saved.draft@ == Seq::<char>::empty()
            &&& after == self.with_creation(request, saved@)
        }
    }
}

/// Whether replacing a provisional title gives this store and this answer.
pub open spec fn retitles_provisional(
    before: StoreView,
    id: SessionId,
    title: String,
    after: StoreView,
    r: Result<Option<SessionInfo>, StoreError>,
) -> bool {
    if !before.has_session(id) {
        r == Err::<Option<SessionInfo>, StoreError>(
            StoreError::Corrupt { message: "session does not exist" },
        ) && after == before
    } else if !before.provisional.dom().contains(session_key(id)) {
        r == Ok::<Option<SessionInfo>, StoreError>(None) && after == before
    } else {
        &&& r == Ok::<Option<SessionInfo>, StoreError>(
            Some(SessionInfo { title, ..before.session(id).info }),
        )
        &&& after == before.with_final_title(id, title)
    }
}

/// Whether this is the session that was active last in a workspace.
pub open spec fn recalls_session(
    store: StoreView,
    workspace: WorkspaceId,
    r: Option<SessionId>,
) -> bool {
    r == (if store.last_active.dom().contains(workspace_key(workspace)) {
        Some(store.last_active[workspace_key(workspace)])
    } else {
        None
    })
}

/// Whether noting the active session of a workspace gives this store and this answer.
pub open spec fn remembers_session(
    before: StoreView,
    workspace: WorkspaceId,
    session: SessionId,
    after: StoreView,
    r: bool,
) -> bool {
    &&& r == (before.has_session(session) && before.session(session).info.workspace
        == workspace)
    &&& after == (if r {
        StoreView {
            last_active: before.last_active.insert(workspace_key(workspace), session),
            ..before
        }
    } else {
        before
    })
}

impl DataStore {
    /// Creates a session once per request, under a fresh identity.
    pub fn create_session_idempotent(&mut self, request: CreateSessionRequest) -> (r: Result<
        Option<SavedSession>,
        StoreError,
    >)
        ensures
            exists|id: SessionId|
                id.0 != 0 && #[trigger] old(self)@.creates(id, request, final(self)@, r),
    {
        let id = SessionId::new();
        self.create_session_idempotent_as(id, request)
    }

    /// Creates a session once per request, under the given identity.
    pub fn create_session_idempotent_as(&mut self, id: SessionId, request: CreateSessionRequest) -> (r:
        Result<Option<SavedSession>, StoreError>)
        ensures
            old(self)@.creates(id, request, final(self)@, r),
    {
        let ghost start = self@;
        let creation = make_creation_key(request.request_id);
        match self.creations.get(&creation) {
            Some(first) => {
                if first.workspace != request.workspace || !same_text(
                    first.title.as_str(),
                    request.title.as_str(),
                ) {
                    return Ok(None);
                }
                return match self.session(first.session) {
                    Some(saved) => Ok(Some(saved)),
                    None => Err(
                        StoreError::Corrupt {
                            message: "session request points to a missing session",
                        },
                    ),
                };
            },
            None => {},
        }
        let record = CreationRecord {
            session: id,
            workspace: request.workspace,
            title: request.title.clone(),
        };
        match self.create_session_as(id, request.workspace, request.title) {
            Ok(saved) => {
                let key = make_session_key(id);
                self.creations.put(creation, record);
                if request.provisional {
                    self.provisional.put(key, true);
                } else {
                    let _ = self.provisional.take(&key);
                }
                proof {
                    assert(self@ =~= start.with_creation(request, saved@));
                }
                Ok(Some(saved))
            },
            Err(error) => Err(error),
        }
    }

    /// Replaces the first title of a session, unless its title is final already.
    pub fn rename_session_if_provisional(&mut self, id: SessionId, title: String) -> (r: Result<
        Option<SessionInfo>,
        StoreError,
    >)
        ensures
            retitles_provisional(old(self)@, id, title, final(self)@, r),
    {
        let key = make_session_key(id);
        if !self.sessions.has(&key) {
            return Err(StoreError::Corrupt { message: "session does not exist" });
        }
        if !self.provisional.has(&key) {
            return Ok(None);
        }
        match self.rename_session(id, title) {
            Ok(info) => Ok(Some(info)),
            Err(error) => Err(error),
        }
    }

    /// The session that was selected last in a workspace.
    pub fn last_active_session(&self, workspace: WorkspaceId) -> (r: Option<SessionId>)
        ensures
            recalls_session(self@, workspace, r),
    {
        match self.last_active.get(&make_workspace_key(workspace)) {
            Some(session) => Some(*session),
            None => None,
        }
    }

    /// Remembers the session that is selected in a workspace, if it is one of its sessions.
    pub fn set_last_active_session(&mut self, workspace: WorkspaceId, session: SessionId) -> (r: bool)
        ensures
            remembers_session(old(self)@, workspace, session, final(self)@, r),
    {
        let ghost start = self@;
        let known = match self.sessions.get(&make_session_key(session)) {
            Some(saved) => saved.info.workspace == workspace,
            None => false,
        };
        if known {
            self.last_active.put(make_workspace_key(workspace), session);
            proof {
                assert(self@ =~= (StoreView {
                    last_active: start.last_active.insert(workspace_key(workspace), session),
                    ..start
                }));
            }
        }
        known
    }
}

/// A repeated request for a session gets the session of the first one, whatever identity is
/// offered, and changes nothing; with another workspace or title it gets nothing.
pub proof fn law_session_creation_is_idempotent(
    store: StoreView,
    after: StoreView,
    last: StoreView,
    id: SessionId,
    other: SessionId,
    request: CreateSessionRequest,
    again: CreateSessionRequest,
    first: Result<Option<SavedSession>, StoreError>,
    second: Result<Option<SavedSession>, StoreError>,
)
    requires
        store.creates(id, request, after, first),
        first is Ok && first->Ok_0 is Some,
        again.request_id == request.request_id,
        after.creates(other, again, last, second),
    ensures
        last == after,
        if again.workspace == request.workspace && again.title@ == request.title@ {
            second matches Ok(Some(found)) && found@ == first->Ok_0->0@
        } else {
            second == Ok::<Option<SavedSession>, StoreError>(None)
        },
{
}

/// A first title is replaced at most once: afterwards, and after any other renaming, it is final.
pub proof fn law_title_is_replaced_at_most_once(store: StoreView, session: SessionId, title: String)
    ensures
        !store.with_final_title(session, title).provisional.dom().contains(session_key(session)),
{
}

} // verus!
