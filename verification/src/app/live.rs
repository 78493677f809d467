//! Which sessions are open, and how they are opened and released.

use vstd::prelude::*;

use super::{App, LiveSession};
use crate::api::{
    CreateSessionRequest, SessionReleaseReceipt, SessionReleaseStatus, SessionRetentionReason,
    WorkspaceInfo,
};
use crate::document::{listing, DocumentKey, KeyRange};
use crate::error::{Error, StoreError};
use crate::ids::{SessionId, WorkspaceId};
use crate::path::FilePath;
use crate::persistence::keys::{make_session_key, session_key};
use crate::persistence::sessions::{has_root, identified_at, new_session, rooted_at};
use crate::persistence::{DataStore, SavedSession, SavedSessionView, StoreView, WorkspaceInfoView};
use crate::seqs::{lemma_filter_none, lemma_filter_step, lemma_take_all};
use crate::title::{valid_title, validate_title};

verus! {

impl StoreView {
    /// Whether a workspace is known.
    pub open spec fn has_workspace(self, id: WorkspaceId) -> bool {
        exists|i: int| identified_at(self.workspaces, id, i)
    }

    /// Whether opening a root comes to this: the workspace that has it, else a new one.
    pub open spec fn opens_workspace(
        self,
        id: WorkspaceId,
        root: Seq<u8>,
        after: StoreView,
        workspace: WorkspaceInfo,
    ) -> bool {
        &&& workspace.root@ == root
        &&& if has_root(self.workspaces, root) {
            &&& after == self
            &&& exists|i: int| #[trigger]
                rooted_at(self.workspaces, root, i) && workspace.id == self.workspaces[i].id
        } else {
            &&& workspace.id == id
            &&& after == (StoreView {
                workspaces: self.workspaces.push(WorkspaceInfoView { id, root }),
                ..self
            })
        }
    }

    /// The root of a workspace.
    pub open spec fn root_of(self, id: WorkspaceId) -> Seq<u8> {
        self.workspaces[choose|i: int| identified_at(self.workspaces, id, i)].root
    }
}

/// Where a session is found.
#[derive(Debug, PartialEq, Eq)]
pub enum Lookup {
    /// It is open.
    Open,
    /// It is to be opened.
    Saved(SavedSession),
}

/// What is to be done to release a session.
#[derive(Clone, Copy, Debug, PartialEq, Eq, Structural)]
pub enum ReleaseStart {
    Answer(SessionReleaseReceipt),
    /// The session is to be asked.
    Ask,
}

/// Whether a listed session is open for all, in a workspace where one is given.
pub open spec fn is_active(sessions: Map<DocumentKey, LiveSession>, workspace: Option<WorkspaceId>) -> spec_fn(
    DocumentKey,
) -> bool {
    |key: DocumentKey|
        !sessions[key].releasing && (workspace is None || sessions[key].workspace == workspace->0)
}

/// The session with a key.
pub open spec fn session_of() -> spec_fn(DocumentKey) -> SessionId {
    |key: DocumentKey| SessionId(key.owner)
}

/// The range of all keys.
pub open spec fn all_keys() -> KeyRange {
    KeyRange { owner: None, item: None, before: None }
}

/// Finds a workspace in a store.
pub(crate) fn workspace_in(store: &DataStore, id: WorkspaceId) -> (r: Result<WorkspaceInfo, Error>)
    ensures
        if store@.has_workspace(id) {
            r matches Ok(workspace) && workspace.id == id && workspace.root@ == store@.root_of(id)
        } else {
            r == Err::<WorkspaceInfo, Error>(Error::WorkspaceNotFound)
        },
{
    match store.workspace_by_id(id) {
        Some(workspace) => {
            proof {
                let workspaces = store@.workspaces;
                let i = choose|i: int| #[trigger]
                    identified_at(workspaces, id, i) && workspace.root@ == workspaces[i].root;
                let j = choose|j: int| identified_at(workspaces, id, j);
                if i < j {
                    assert(workspaces[i].id != id);
                } else if j < i {
                    assert(workspaces[j].id != id);
                }
            }
            Ok(workspace)
        },
        None => Err(Error::WorkspaceNotFound),
    }
}

/// Whether opening a workspace gives this application and this answer.
pub open spec fn enters_workspace(
    app: App,
    id: WorkspaceId,
    root: FilePath,
    is_dir: bool,
    next: App,
    r: Result<WorkspaceInfo, Error>,
) -> bool {
    &&& next == (App { store: next.store, ..app })
    &&& if app.closed {
        r == Err::<WorkspaceInfo, Error>(Error::Closed) && next.store@
            == app.store@
    } else if !is_dir {
        &&& r matches Err(error)
        &&& error.is_invalid("workspace must be an existing directory"@)
        &&& next.store@ == app.store@
    } else {
        &&& r matches Ok(workspace)
        &&& app.store@.opens_workspace(id, root@, next.store@, workspace)
    }
}

/// Whether making a session gives this application and this answer.
pub open spec fn makes_session(
    app: App,
    id: SessionId,
    workspace: WorkspaceId,
    title: String,
    next: App,
    r: Result<SavedSession, Error>,
) -> bool {
    &&& next == (App { store: next.store, ..app })
    &&& {
        let before = app.store@;
        if !valid_title(title@) {
            &&& r matches Err(error)
            &&& error.is_invalid("invalid session title"@)
            &&& next.store@ == before
        } else if app.closed {
            r == Err::<SavedSession, Error>(Error::Closed) && next.store@ == before
        } else if !before.has_workspace(workspace) {
            r == Err::<SavedSession, Error>(Error::WorkspaceNotFound)
                && next.store@ == before
        } else if !before.is_free(id) {
            &&& r matches Err(error)
            &&& StoreError::RevisionConflict.becomes(error)
            &&& next.store@ == before
        } else {
            &&& r matches Ok(saved)
            &&& saved@ == (SavedSessionView {
                draft: saved.draft,
                ..new_session(id, workspace, title)
            })
            &&& saved.draft@ == Seq::<char>::empty()
            &&& next.store@ == before.with_new_session(saved@)
        }
    }
}

/// Whether a request for a session gives this application and this answer.
pub open spec fn makes_session_once(
    app: App,
    id: SessionId,
    request: CreateSessionRequest,
    next: App,
    r: Result<SavedSession, Error>,
) -> bool {
    &&& next == (App { store: next.store, ..app })
    &&& {
        let before = app.store@;
        if !valid_title(request.title@) {
            &&& r matches Err(error)
            &&& error.is_invalid("invalid session title"@)
            &&& next.store@ == before
        } else if app.closed {
            r == Err::<SavedSession, Error>(Error::Closed) && next.store@ == before
        } else if !before.has_workspace(request.workspace) {
            r == Err::<SavedSession, Error>(Error::WorkspaceNotFound)
                && next.store@ == before
        } else {
            exists|answer: Result<Option<SavedSession>, StoreError>|
                {
                    &&& #[trigger] before.creates(
                        id,
                        request,
                        next.store@,
                        answer,
                    )
                    &&& match answer {
                        Ok(Some(saved)) => r == Ok::<SavedSession, Error>(saved),
                        Ok(None) => r == Err::<SavedSession, Error>(Error::RequestConflict),
                        Err(error) => r matches Err(shown) && error.becomes(shown),
                    }
                }
        }
    }
}

/// Whether looking a session up gives this application and this answer.
pub open spec fn looks_up(
    app: App,
    id: SessionId,
    ended: bool,
    next: App,
    r: Result<Lookup, Error>,
) -> bool {
    &&& next.store@ == app.store@
    &&& next.closed == app.closed
    &&& {
        let key = session_key(id);
        let open = app.sessions@;
        if app.closed {
            r == Err::<Lookup, Error>(Error::Closed) && next.sessions@ == open
        } else if open.dom().contains(key) && open[key].releasing {
            r == Err::<Lookup, Error>(Error::SessionBusy(id)) && next.sessions@ == open
        } else if open.dom().contains(key) && !ended {
            r == Ok::<Lookup, Error>(Lookup::Open) && next.sessions@ == open
        } else {
            &&& next.sessions@ == open.remove(key)
            &&& if app.store@.has_session(id) {
                r matches Ok(Lookup::Saved(saved)) && saved@ == app.store@.session(id)
            } else {
                r == Err::<Lookup, Error>(Error::SessionNotFound)
            }
        }
    }
}

/// Whether registering an open session gives this application and this answer.
pub open spec fn registers(
    app: App,
    id: SessionId,
    workspace: WorkspaceId,
    next: App,
    r: Result<bool, Error>,
) -> bool {
    &&& next.store@ == app.store@
    &&& next.closed == app.closed
    &&& {
        let key = session_key(id);
        let open = app.sessions@;
        if open.dom().contains(key) {
            &&& next.sessions@ == open
            &&& r == (if open[key].releasing {
                Err::<bool, Error>(Error::SessionBusy(id))
            } else {
                Ok(false)
            })
        } else {
            &&& next.sessions@ == open.insert(
                key,
                LiveSession { workspace, releasing: false },
            )
            &&& r == Ok::<bool, Error>(true)
        }
    }
}

/// Whether beginning to release a session gives this application and this answer.
pub open spec fn begins_release(
    app: App,
    id: SessionId,
    ended: bool,
    next: App,
    r: Result<ReleaseStart, Error>,
) -> bool {
    &&& next.store@ == app.store@
    &&& next.closed == app.closed
    &&& if app.closed {
        r == Err::<ReleaseStart, Error>(Error::Closed) && next.sessions@
            == app.sessions@
    } else {
        let (open, start) = release_begun(app.sessions@, id, ended);
        r == Ok::<ReleaseStart, Error>(start) && next.sessions@ == open
    }
}

/// Whether the end of a release gives this application and this answer.
pub open spec fn ends_release(
    app: App,
    id: SessionId,
    result: Result<SessionReleaseStatus, Error>,
    next: App,
    r: Result<SessionReleaseReceipt, Error>,
) -> bool {
    &&& next.store@ == app.store@
    &&& next.closed == app.closed
    &&& next.sessions@ == release_ended(
        app.sessions@,
        id,
        result == Ok::<SessionReleaseStatus, Error>(SessionReleaseStatus::Released),
    )
    &&& match result {
        Ok(status) => r == Ok::<SessionReleaseReceipt, Error>(
            SessionReleaseReceipt { session: id, status },
        ),
        Err(error) => r == Err::<SessionReleaseReceipt, Error>(error),
    }
}

impl App {
    /// Finds a workspace.
    pub(crate) fn find_workspace(&self, id: WorkspaceId) -> (r: Result<WorkspaceInfo, Error>)
        ensures
            if self.store@.has_workspace(id) {
                r matches Ok(workspace) && workspace.id == id && workspace.root@
                    == self.store@.root_of(id)
            } else {
                r == Err::<WorkspaceInfo, Error>(Error::WorkspaceNotFound)
            },
    {
        workspace_in(&self.store, id)
    }

    /// Opens a workspace at a root that must be an existing directory.
    pub fn open_workspace(&mut self, id: WorkspaceId, root: FilePath, is_dir: bool) -> (r: Result<
        WorkspaceInfo,
        Error,
    >)
        ensures
            enters_workspace(*old(self), id, root, is_dir, *final(self), r),
    {
        if self.closed {
            return Err(Error::Closed);
        }
        if !is_dir {
            return Err(Error::invalid("workspace must be an existing directory"));
        }
        Ok(self.store.workspace_as(id, root))
    }

    /// Creates a session in a workspace, under the given identity.
    pub fn create_session(&mut self, id: SessionId, workspace: WorkspaceId, title: String) -> (r: Result<
        SavedSession,
        Error,
    >)
        ensures
            makes_session(*old(self), id, workspace, title, *final(self), r),
    {
        match validate_title(title.as_str()) {
            Ok(()) => {},
            Err(error) => {
                return Err(error);
            },
        }
        if self.closed {
            return Err(Error::Closed);
        }
        match self.find_workspace(workspace) {
            Ok(_) => {},
            Err(error) => {
                return Err(error);
            },
        }
        match self.store.create_session_as(id, workspace, title) {
            Ok(saved) => Ok(saved),
            Err(error) => Err(error.into_error()),
        }
    }

    /// Creates a session once per request. Asking again gives the same session, and reusing the
    /// request for something else is refused.
    pub fn create_session_idempotent(&mut self, id: SessionId, request: CreateSessionRequest) -> (r: Result<
        SavedSession,
        Error,
    >)
        ensures
            makes_session_once(*old(self), id, request, *final(self), r),
    {
        match validate_title(request.title.as_str()) {
            Ok(()) => {},
            Err(error) => {
                return Err(error);
            },
        }
        if self.closed {
            return Err(Error::Closed);
        }
        match self.find_workspace(request.workspace) {
            Ok(_) => {},
            Err(error) => {
                return Err(error);
            },
        }
        let answer = self.store.create_session_idempotent_as(id, request);
        assert(old(self).store@.creates(id, request, self.store@, answer));
        match answer {
            Ok(Some(saved)) => Ok(saved),
            Ok(None) => Err(Error::RequestConflict),
            Err(error) => Err(error.into_error()),
        }
    }

    /// Finds a session: open, unless it is being released or has ended; else in the store.
    pub fn session(&mut self, id: SessionId, ended: bool) -> (r: Result<Lookup, Error>)
        ensures
            looks_up(*old(self), id, ended, *final(self), r),
    {
        if self.closed {
            return Err(Error::Closed);
        }
        let key = make_session_key(id);
        match self.sessions.get(&key) {
            Some(session) => {
                if session.releasing {
                    return Err(Error::SessionBusy(id));
                }
                if !ended {
                    return Ok(Lookup::Open);
                }
            },
            None => {},
        }
        let _ = self.sessions.take(&key);
        match self.store.session(id) {
            Some(saved) => Ok(Lookup::Saved(saved)),
            None => Err(Error::SessionNotFound),
        }
    }

    /// Registers a session that is to be opened, and says whether it has to be started.
    pub fn register_session(&mut self, id: SessionId, workspace: WorkspaceId) -> (r: Result<bool, Error>)
        ensures
            registers(*old(self), id, workspace, *final(self), r),
    {
        let key = make_session_key(id);
        match self.sessions.get(&key) {
            Some(session) => {
                return if session.releasing {
                    Err(Error::SessionBusy(id))
                } else {
                    Ok(false)
                };
            },
            None => {},
        }
        self.sessions.put(key, LiveSession { workspace, releasing: false });
        Ok(true)
    }

    /// Starts to release a session. One that is not open needs nothing, one that is being released
    /// is kept, any other is to be asked and not used meanwhile.
    pub fn begin_release(&mut self, id: SessionId, ended: bool) -> (r: Result<ReleaseStart, Error>)
        ensures
            begins_release(*old(self), id, ended, *final(self), r),
    {
        if self.closed {
            return Err(Error::Closed);
        }
        let key = make_session_key(id);
        let session = match self.sessions.get(&key) {
            Some(session) => *session,
            None => {
                return Ok(give_answer(id, SessionReleaseStatus::NotOpen));
            },
        };
        if session.releasing {
            return Ok(
                give_answer(
                    id,
                    SessionReleaseStatus::Retained(SessionRetentionReason::ReleaseInProgress),
                ),
            );
        }
        if ended {
            let _ = self.sessions.take(&key);
            return Ok(give_answer(id, SessionReleaseStatus::NotOpen));
        }
        self.sessions.put(key, LiveSession { workspace: session.workspace, releasing: true });
        Ok(ReleaseStart::Ask)
    }

    /// Ends the release of a session with its answer: a released one is no longer open, any other
    /// can be used again.
    pub fn end_release(&mut self, id: SessionId, result: Result<SessionReleaseStatus, Error>) -> (r: Result<
        SessionReleaseReceipt,
        Error,
    >)
        ensures
            ends_release(*old(self), id, result, *final(self), r),
    {
        let key = make_session_key(id);
        let released = match &result {
            Ok(status) => match status {
                SessionReleaseStatus::Released => true,
                _ => false,
            },
            Err(_) => false,
        };
        if released {
            let _ = self.sessions.take(&key);
        } else {
            let current = match self.sessions.get(&key) {
                Some(session) => Some(*session),
                None => None,
            };
            match current {
                Some(session) => {
                    self.sessions.put(
                        key,
                        LiveSession { workspace: session.workspace, releasing: false },
                    );
                },
                None => {},
            }
        }
        match result {
            Ok(status) => Ok(SessionReleaseReceipt { session: id, status }),
            Err(error) => Err(error),
        }
    }

    /// The sessions that are open and not being released, in a workspace or in all.
    pub open spec fn active(self, workspace: Option<WorkspaceId>) -> Seq<SessionId> {
        listing(self.sessions@.dom(), all_keys()).filter(
            is_active(self.sessions@, workspace),
        ).map_values(session_of())
    }

    /// The sessions that are open and not being released, in a workspace or in all.
    pub fn active_sessions(&self, workspace: Option<WorkspaceId>) -> (r: Vec<SessionId>)
        ensures
            r@ == self.active(workspace),
    {
        let keys = self.sessions.select(&KeyRange { owner: None, item: None, before: None });
        let ghost keep = is_active(self.sessions@, workspace);
        let mut r: Vec<SessionId> = Vec::new();
        let mut i: usize = 0;
        proof {
            lemma_filter_none(keys@, keep);
            assert(r@ =~= keys@.take(0).filter(keep).map_values(session_of()));
        }
        while i < keys.len()
            invariant
                i <= keys@.len(),
                keys@ == listing(self.sessions@.dom(), all_keys()),
                keep == is_active(self.sessions@, workspace),
                forall|j: int| #![trigger keys@[j]]
                    0 <= j < keys@.len() ==> self.sessions@.dom().contains(keys@[j]),
                r@ == keys@.take(i as int).filter(keep).map_values(session_of()),
            decreases keys@.len() - i,
        {
            proof {
                assert(self.sessions@.dom().contains(keys@[i as int]));
                lemma_filter_step(keys@, i as int, keep);
            }
            match self.sessions.get(&keys[i]) {
                Some(session) => {
                    let here = match workspace {
                        Some(workspace) => session.workspace == workspace,
                        None => true,
                    };
                    if !session.releasing && here {
                        r.push(SessionId(keys[i].owner));
                    }
                },
                None => {},
            }
            proof {
                assert(r@ =~= keys@.take(i + 1).filter(keep).map_values(session_of()));
            }
            i = i + 1;
        }
        proof {
            lemma_take_all(keys@);
        }
        r
    }
}

/// What starting to release a session comes to, with the open sessions after it. One that is not
/// open needs nothing, one that is being released is kept, any other is to be asked and not used
/// meanwhile.
pub open spec fn release_begun(open: Map<DocumentKey, LiveSession>, id: SessionId, ended: bool) -> (
    Map<DocumentKey, LiveSession>,
    ReleaseStart,
) {
    let key = session_key(id);
    if !open.dom().contains(key) {
        (open, answer(id, SessionReleaseStatus::NotOpen))
    } else if open[key].releasing {
        (
            open,
            answer(
                id,
                SessionReleaseStatus::Retained(SessionRetentionReason::ReleaseInProgress),
            ),
        )
    } else if ended {
        (open.remove(key), answer(id, SessionReleaseStatus::NotOpen))
    } else {
        (open.insert(key, LiveSession { releasing: true, ..open[key] }), ReleaseStart::Ask)
    }
}

/// The open sessions after the release of one has ended.
pub open spec fn release_ended(
    open: Map<DocumentKey, LiveSession>,
    id: SessionId,
    released: bool,
) -> Map<DocumentKey, LiveSession> {
    let key = session_key(id);
    if released {
        open.remove(key)
    } else if open.dom().contains(key) {
        open.insert(key, LiveSession { releasing: false, ..open[key] })
    } else {
        open
    }
}

/// While a session is asked to release itself, nobody else can ask it: another attempt is told
/// that one is in progress and changes nothing.
pub proof fn law_release_is_exclusive(
    open: Map<DocumentKey, LiveSession>,
    id: SessionId,
    ended: bool,
    later_ended: bool,
)
    requires
        release_begun(open, id, ended).1 is Ask,
    ensures
        ({
            let after = release_begun(open, id, ended).0;
            &&& after.dom().contains(session_key(id)) && after[session_key(id)].releasing
            &&& release_begun(after, id, later_ended) == (
                after,
                answer(
                    id,
                    SessionReleaseStatus::Retained(SessionRetentionReason::ReleaseInProgress),
                ),
            )
        }),
{
}

/// A session that is kept is as open as before; one that is released is not open.
pub proof fn law_kept_session_is_open_again(
    open: Map<DocumentKey, LiveSession>,
    id: SessionId,
    ended: bool,
)
    requires
        release_begun(open, id, ended).1 is Ask,
    ensures
        release_ended(release_begun(open, id, ended).0, id, false) == open,
        release_ended(release_begun(open, id, ended).0, id, true) == open.remove(session_key(id)),
{
    assert(release_ended(release_begun(open, id, ended).0, id, false) =~= open);
    assert(release_ended(release_begun(open, id, ended).0, id, true) =~= open.remove(
        session_key(id),
    ));
}

/// The answer to an attempt to release a session.
pub open spec fn answer(session: SessionId, status: SessionReleaseStatus) -> ReleaseStart {
    ReleaseStart::Answer(SessionReleaseReceipt { session, status })
}

fn give_answer(session: SessionId, status: SessionReleaseStatus) -> (r: ReleaseStart)
    ensures
        r == answer(session, status),
{
    ReleaseStart::Answer(SessionReleaseReceipt { session, status })
}

} // verus!
