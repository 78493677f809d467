//! Workspaces and sessions.

use vstd::prelude::*;

use super::keys::{make_session_key, session_key};
use super::{
    catalogue, DataStore, ProjectionState, SavedRuntime, SavedRuntimeView, SavedSession,
    SavedSessionView, StoreView, StoredEntryView, StoredEvent, StoredEventView, WorkspaceInfoView,
};
use crate::api::{SessionEvent, SessionEventView, SessionInfo, SessionSeq, WorkspaceInfo};
use crate::config::RuntimeConfig;
use crate::document::{listing, DocumentKey, KeyRange};
use crate::error::StoreError;
use crate::ids::{RuntimeId, SessionId, WorkspaceId};
use crate::path::FilePath;
use crate::seqs::{
    lemma_filter_none, lemma_filter_step, lemma_slot, lemma_slot_bounds, lemma_take_all, slot,
    sorted_by,
};

verus! {

/// Whether the first workspace with the given root is at `index`.
pub open spec fn rooted_at(workspaces: Seq<WorkspaceInfoView>, root: Seq<u8>, index: int) -> bool {
    &&& 0 <= index < workspaces.len()
    &&& workspaces[index].root == root
    &&& forall|i: int| 0 <= i < index ==> (#[trigger] workspaces[i]).root != root
}

/// Whether some workspace has the given root.
pub open spec fn has_root(workspaces: Seq<WorkspaceInfoView>, root: Seq<u8>) -> bool {
    exists|i: int| #[trigger] rooted_at(workspaces, root, i)
}

/// Whether the first workspace with the given identity is at `index`.
pub open spec fn identified_at(
    workspaces: Seq<WorkspaceInfoView>,
    id: WorkspaceId,
    index: int,
) -> bool {
    &&& 0 <= index < workspaces.len()
    &&& workspaces[index].id == id
    &&& forall|i: int| 0 <= i < index ==> (#[trigger] workspaces[i]).id != id
}

/// The projection of a journal that has nothing to project.
pub open spec fn finished_projection() -> ProjectionState {
    ProjectionState { snapshot_through: SessionSeq(0), before: SessionSeq(1), complete: true }
}

impl StoreView {
    /// Whether nothing of a session is stored yet.
    pub open spec fn is_free(self, session: SessionId) -> bool {
        &&& !self.has_session(session)
        &&& !self.result_projections.dom().contains(session_key(session))
        &&& !self.evidence_projections.dom().contains(session_key(session))
    }

    /// The store with a session under a title that stays.
    pub open spec fn with_final_title(self, session: SessionId, title: String) -> StoreView {
        let saved = self.session(session);
        StoreView {
            provisional: self.provisional.remove(session_key(session)),
            ..self.with_session(
                session,
                SavedSessionView { info: SessionInfo { title, ..saved.info }, ..saved },
            )
        }
    }

    /// The store with a new session.
    pub open spec fn with_session(self, session: SessionId, saved: SavedSessionView) -> StoreView {
        StoreView { sessions: self.sessions.insert(session_key(session), saved), ..self }
    }

    /// The sessions of a workspace by their identities.
    pub open spec fn listed_sessions(self, workspace: WorkspaceId) -> Seq<DocumentKey> {
        sorted_by(
            listing(self.sessions.dom(), KeyRange { owner: None, item: None, before: None }).filter(
                |key: DocumentKey| self.sessions[key].info.workspace == workspace,
            ),
            self.session_order(),
        )
    }

    /// The order of stored sessions: by their identities.
    pub open spec fn session_order(self) -> spec_fn(DocumentKey) -> int {
        |key: DocumentKey| self.sessions[key].info.id.0 as int
    }

    /// The store with a session changed and an event in its journal.
    pub open spec fn with_event(
        self,
        session: SessionId,
        saved: SavedSessionView,
        event: SessionEventView,
        now: i64,
    ) -> StoreView {
        StoreView {
            sessions: self.sessions.insert(session_key(session), saved),
            ..self.with_entries(
                session,
                seq![StoredEntryView { occurred_at: now, event: StoredEventView::App(event) }],
            )
        }
    }
}

/// A new session.
pub open spec fn new_session(id: SessionId, workspace: WorkspaceId, title: String) -> SavedSessionView {
    SavedSessionView {
        info: SessionInfo { id, workspace, title, archived: false },
        next_input: 1,
        runtime: None,
        agent_through: 0,
        core_through: 0,
        draft: arbitrary(),
    }
}

/// Whether looking a workspace up by its root gives this store and this workspace.
pub open spec fn finds_workspace(
    before: StoreView,
    id: WorkspaceId,
    root: Seq<u8>,
    after: StoreView,
    r: WorkspaceInfo,
) -> bool {
    &&& r.root@ == root
    &&& if has_root(before.workspaces, root) {
        &&& after == before
        &&& exists|i: int| #[trigger]
            rooted_at(before.workspaces, root, i) && r.id
                == before.workspaces[i].id
    } else {
        &&& r.id == id
        &&& after == (StoreView {
            workspaces: before.workspaces.push(WorkspaceInfoView { id, root: root }),
            ..before
        })
    }
}

/// Whether this is the workspace with the given identity.
pub open spec fn names_workspace(
    store: StoreView,
    id: WorkspaceId,
    r: Option<WorkspaceInfo>,
) -> bool {
    match r {
        Some(workspace) => {
            &&& workspace.id == id
            &&& exists|i: int| #[trigger]
                identified_at(store.workspaces, id, i) && workspace.root@
                    == store.workspaces[i].root
        },
        None => forall|i: int|
            0 <= i < store.workspaces.len() ==> (#[trigger] store.workspaces[i]).id != id,
    }
}

/// Whether creating a session gives this store and this answer.
pub open spec fn creates_session(
    before: StoreView,
    id: SessionId,
    workspace: WorkspaceId,
    title: String,
    after: StoreView,
    r: Result<SavedSession, StoreError>,
) -> bool {
    match r {
        Ok(saved) => {
            &&& before.is_free(id)
            &&& saved@ == (SavedSessionView {
                draft: saved.draft,
                ..new_session(id, workspace, title)
            })
            &&& saved.draft@ == Seq::<char>::empty()
            &&& after == before.with_new_session(saved@)
        },
        Err(error) => {
            &&& !before.is_free(id)
            &&& error == StoreError::RevisionConflict
            &&& after == before
        },
    }
}

/// Whether giving a session a title gives this store and this answer.
pub open spec fn retitles(
    before: StoreView,
    id: SessionId,
    title: String,
    after: StoreView,
    r: Result<SessionInfo, StoreError>,
) -> bool {
    if before.has_session(id) {
        let saved = before.session(id);
        let info = SessionInfo { title, ..saved.info };
        &&& r == Ok::<SessionInfo, StoreError>(info)
        &&& after == before.with_final_title(id, title)
    } else {
        r == Err::<SessionInfo, StoreError>(
            StoreError::Corrupt { message: "session does not exist" },
        ) && after == before
    }
}

/// Whether keeping a draft gives this store and this answer.
pub open spec fn keeps_draft(
    before: StoreView,
    id: SessionId,
    draft: String,
    after: StoreView,
    r: Result<(), StoreError>,
) -> bool {
    if before.has_session(id) {
        &&& r is Ok
        &&& after == before.with_session(
            id,
            SavedSessionView { draft, ..before.session(id) },
        )
    } else {
        r == Err::<(), StoreError>(
            StoreError::Corrupt { message: "session does not exist" },
        ) && after == before
    }
}

/// Whether putting a session away, or taking it back, gives this store and this answer.
pub open spec fn shelves(
    before: StoreView,
    id: SessionId,
    archived: bool,
    after: StoreView,
    r: Result<SessionInfo, StoreError>,
) -> bool {
    if before.has_session(id) {
        let saved = before.session(id);
        let info = SessionInfo { archived, ..saved.info };
        &&& r == Ok::<SessionInfo, StoreError>(info)
        &&& after == before.with_session(
            id,
            SavedSessionView { info, ..saved },
        )
    } else {
        r == Err::<SessionInfo, StoreError>(
            StoreError::Corrupt { message: "session does not exist" },
        ) && after == before
    }
}

/// Whether noting that a runtime started gives this store and this answer.
pub open spec fn notes_start(
    before: StoreView,
    session: SessionId,
    runtime: SavedRuntime,
    agent_through: u64,
    now: i64,
    after: StoreView,
    r: Result<SessionSeq, StoreError>,
) -> bool {
    if before.has_session(session) {
        let started = SavedRuntimeView { id: runtime.id, config: runtime.config@ };
        &&& r matches Ok(sequence)
        &&& sequence.0 == before.history(session).len() + 1
        &&& after == before.with_event(
            session,
            SavedSessionView {
                runtime: Some(started),
                agent_through,
                ..before.session(session)
            },
            SessionEventView::RuntimeStarted {
                runtime: runtime.id,
                config: runtime.config@,
            },
            now,
        )
    } else {
        r == Err::<SessionSeq, StoreError>(
            StoreError::Corrupt { message: "session does not exist" },
        ) && after == before
    }
}

/// Whether noting a new configuration of a runtime gives this store and this answer.
pub open spec fn notes_reconfiguration(
    before: StoreView,
    session: SessionId,
    runtime: RuntimeId,
    config: RuntimeConfig,
    now: i64,
    after: StoreView,
    r: Result<SessionSeq, StoreError>,
) -> bool {
    if !before.has_session(session) {
        r == Err::<SessionSeq, StoreError>(
            StoreError::Corrupt { message: "session does not exist" },
        ) && after == before
    } else if before.session(session).runtime is None || before.session(
        session,
    ).runtime->0.id != runtime {
        r == Err::<SessionSeq, StoreError>(
            StoreError::Corrupt { message: "runtime is not current" },
        ) && after == before
    } else {
        &&& r matches Ok(sequence)
        &&& sequence.0 == before.history(session).len() + 1
        &&& after == before.with_event(
            session,
            SavedSessionView {
                runtime: Some(SavedRuntimeView { id: runtime, config: config@ }),
                ..before.session(session)
            },
            SessionEventView::RuntimeReconfigured { runtime, config: config@ },
            now,
        )
    }
}

/// Whether noting that a runtime closed gives this store and this answer.
pub open spec fn notes_close(
    before: StoreView,
    session: SessionId,
    runtime: RuntimeId,
    now: i64,
    after: StoreView,
    r: Result<SessionSeq, StoreError>,
) -> bool {
    if !before.has_session(session) {
        r == Err::<SessionSeq, StoreError>(
            StoreError::Corrupt { message: "session does not exist" },
        ) && after == before
    } else {
        let saved = before.session(session);
        &&& r matches Ok(sequence)
        &&& sequence.0 == before.history(session).len() + 1
        &&& after == before.with_event(
            session,
            if saved.runtime is Some && saved.runtime->0.id == runtime {
                SavedSessionView { runtime: None, agent_through: 0, ..saved }
            } else {
                saved
            },
            SessionEventView::RuntimeClosed { runtime },
            now,
        )
    }
}

impl DataStore {
    /// The workspace with the given root; a new one where there is none.
    pub fn workspace(&mut self, root: FilePath) -> (r: WorkspaceInfo)
        ensures
            r.root@ == root@,
            if has_root(old(self)@.workspaces, root@) {
                &&& final(self)@ == old(self)@
                &&& exists|i: int| #[trigger]
                    rooted_at(old(self)@.workspaces, root@, i) && r.id
                        == old(self)@.workspaces[i].id
            } else {
                &&& r.id.0 != 0
                &&& final(self)@ == (StoreView {
                    workspaces: old(self)@.workspaces.push(
                        WorkspaceInfoView { id: r.id, root: root@ },
                    ),
                    ..old(self)@
                })
            },
    {
        let id = WorkspaceId::new();
        self.workspace_as(id, root)
    }

    /// The workspace with the given root; one with the given identity where there is none.
    pub fn workspace_as(&mut self, id: WorkspaceId, root: FilePath) -> (r: WorkspaceInfo)
        ensures
            finds_workspace(old(self)@, id, root@, final(self)@, r),
    {
        let ghost start = self@;
        let mut i: usize = 0;
        while i < self.workspaces.len()
            invariant
                i <= self.workspaces@.len(),
                self@ == start,
                start == old(self)@,
                forall|j: int| 0 <= j < i ==> (#[trigger] start.workspaces[j]).root != root@,
            decreases self.workspaces@.len() - i,
        {
            proof {
                assert(start.workspaces == catalogue(self.workspaces@));
                assert(start.workspaces[i as int].root == self.workspaces@[i as int].root@);
                assert(start.workspaces[i as int].id == self.workspaces@[i as int].id);
            }
            if self.workspaces[i].root.same(&root) {
                proof {
                    assert(rooted_at(start.workspaces, root@, i as int));
                }
                return self.workspaces[i].copy();
            }
            i = i + 1;
        }
        proof {
            if has_root(start.workspaces, root@) {
                let k = choose|k: int| #[trigger] rooted_at(start.workspaces, root@, k);
                assert(start.workspaces[k].root != root@);
            }
        }
        let workspace = WorkspaceInfo { id, root };
        let r = workspace.copy();
        let ghost earlier = self.workspaces@;
        self.workspaces.push(workspace);
        proof {
            assert(self.workspaces@.drop_last() =~= earlier);
            assert(catalogue(self.workspaces@) =~= catalogue(earlier).push(
                WorkspaceInfoView { id, root: root@ },
            ));
        }
        r
    }

    /// The workspace with the given identity.
    pub fn workspace_by_id(&self, id: WorkspaceId) -> (r: Option<WorkspaceInfo>)
        ensures
            names_workspace(self@, id, r),
    {
        let ghost all = self@.workspaces;
        let mut i: usize = 0;
        while i < self.workspaces.len()
            invariant
                i <= self.workspaces@.len(),
                all == self@.workspaces,
                all == catalogue(self.workspaces@),
                forall|j: int| 0 <= j < i ==> (#[trigger] all[j]).id != id,
            decreases self.workspaces@.len() - i,
        {
            proof {
                assert(all[i as int].id == self.workspaces@[i as int].id);
                assert(all[i as int].root == self.workspaces@[i as int].root@);
            }
            if self.workspaces[i].id == id {
                proof {
                    assert(identified_at(all, id, i as int));
                }
                return Some(self.workspaces[i].copy());
            }
            i = i + 1;
        }
        None
    }

    /// All workspaces.
    pub fn workspaces(&self) -> (r: Vec<WorkspaceInfo>)
        ensures
            catalogue(r@) == self@.workspaces,
    {
        let mut r: Vec<WorkspaceInfo> = Vec::new();
        let mut i: usize = 0;
        while i < self.workspaces.len()
            invariant
                i <= self.workspaces@.len(),
                r@.len() == i,
                forall|j: int| #![trigger r@[j]]
                    0 <= j < i ==> r@[j].id == self.workspaces@[j].id && r@[j].root@
                        == self.workspaces@[j].root@,
            decreases self.workspaces@.len() - i,
        {
            r.push(self.workspaces[i].copy());
            i = i + 1;
        }
        proof {
            assert(catalogue(r@) =~= self@.workspaces);
        }
        r
    }

    /// Creates a session under a new identity, unless something is stored under it.
    pub fn create_session(&mut self, workspace: WorkspaceId, title: String) -> (r: Result<
        SavedSession,
        StoreError,
    >)
        ensures
            exists|id: SessionId|
                id.0 != 0 && (if #[trigger] old(self)@.is_free(id) {
                    &&& r matches Ok(saved)
                    &&& saved.info.id == id
                    &&& saved@ == (SavedSessionView {
                        draft: saved.draft,
                        ..new_session(id, workspace, title)
                    })
                    &&& saved.draft@ == Seq::<char>::empty()
                    &&& final(self)@ == old(self)@.with_new_session(saved@)
                } else {
                    &&& r matches Err(error)
                    &&& error == StoreError::RevisionConflict
                    &&& final(self)@ == old(self)@
                }),
    {
        let ghost start = self@;
        let id = SessionId::new();
        let r = self.create_session_as(id, workspace, title);
        assert(start.is_free(id) == (r is Ok));
        r
    }

    /// Creates a session under the given identity, unless something is stored under it.
    pub fn create_session_as(&mut self, id: SessionId, workspace: WorkspaceId, title: String) -> (r: Result<
        SavedSession,
        StoreError,
    >)
        ensures
            creates_session(old(self)@, id, workspace, title, final(self)@, r),
    {
        let ghost start = self@;
        let key = make_session_key(id);
        if self.sessions.has(&key) || self.result_projections.has(&key)
            || self.evidence_projections.has(&key) {
            return Err(StoreError::RevisionConflict);
        }
        let saved = SavedSession {
            info: SessionInfo { id, workspace, title, archived: false },
            next_input: 1,
            runtime: None,
            agent_through: 0,
            core_through: 0,
            draft: String::new(),
        };
        let r = saved.copy();
        let ghost created = saved@;
        self.sessions.put(key, saved);
        let projection = ProjectionState {
            snapshot_through: SessionSeq(0),
            before: SessionSeq(1),
            complete: true,
        };
        self.result_projections.put(key, projection);
        self.evidence_projections.put(key, projection);
        proof {
            assert(self@.sessions =~= start.sessions.insert(key, created));
            assert(self@ =~= start.with_new_session(created));
        }
        Ok(r)
    }

    /// A session.
    pub fn session(&self, id: SessionId) -> (r: Option<SavedSession>)
        ensures
            match r {
                Some(saved) => self@.has_session(id) && saved@ == self@.session(id),
                None => !self@.has_session(id),
            },
    {
        match self.sessions.get(&make_session_key(id)) {
            Some(saved) => Some(saved.copy()),
            None => None,
        }
    }

    /// Puts the key of a session in its place by the session's identity.
    fn insert_session(&self, keys: &mut Vec<DocumentKey>, key: DocumentKey)
        requires
            self.sessions@.dom().contains(key),
            forall|i: int| #![trigger old(keys)@[i]]
                0 <= i < old(keys)@.len() ==> self.sessions@.dom().contains(old(keys)@[i]),
        ensures
            final(keys)@ == old(keys)@.insert(
                slot(
                    old(keys)@.map_values(self@.session_order()),
                    self@.session_order()(key),
                ),
                key,
            ),
            forall|i: int| #![trigger final(keys)@[i]]
                0 <= i < final(keys)@.len() ==> self.sessions@.dom().contains(final(keys)@[i]),
    {
        let ghost before = keys@;
        let ghost ranks = keys@.map_values(self@.session_order());
        let id: u128 = self.sessions.get(&key).unwrap().info.id.0;
        let mut at: usize = keys.len();
        loop
            invariant
                at <= keys@.len(),
                keys@ == before,
                before == old(keys)@,
                self.sessions@.dom().contains(key),
                id == self@.sessions[key].info.id.0,
                forall|i: int| #![trigger keys@[i]]
                    0 <= i < keys@.len() ==> self.sessions@.dom().contains(keys@[i]),
                ranks == before.map_values(self@.session_order()),
                forall|i: int| at <= i < ranks.len() ==> ranks[i] > id,
            ensures
                at > 0 ==> ranks[at - 1] <= id,
            decreases at,
        {
            if at == 0 {
                break ;
            }
            assert(self.sessions@.dom().contains(keys@[at - 1]));
            assert(ranks[at - 1] == self@.sessions[keys@[at - 1]].info.id.0);
            if self.sessions.get(&keys[at - 1]).unwrap().info.id.0 <= id {
                break ;
            }
            at = at - 1;
        }
        proof {
            lemma_slot(ranks, id as int, at as int);
        }
        keys.insert(at, key);
        proof {
            assert(keys@ =~= before.insert(at as int, key));
            assert forall|i: int| #![trigger keys@[i]] 0 <= i < keys@.len() implies self.sessions@.dom().contains(
                keys@[i],
            ) by {
                if i < at {
                    assert(keys@[i] == before[i]);
                } else if i > at {
                    assert(keys@[i] == before[i - 1]);
                }
            }
        }
    }

    /// The keys of a workspace's sessions, by their identities.
    pub(crate) fn session_keys(&self, workspace: WorkspaceId) -> (r: Vec<DocumentKey>)
        ensures
            r@ == self@.listed_sessions(workspace),
            forall|i: int| #![trigger r@[i]]
                0 <= i < r@.len() ==> self.sessions@.dom().contains(r@[i]),
    {
        let keys = self.sessions.select(&KeyRange { owner: None, item: None, before: None });
        let ghost wanted = |key: DocumentKey| self@.sessions[key].info.workspace == workspace;
        let ghost order = self@.session_order();
        let mut r: Vec<DocumentKey> = Vec::new();
        let mut i: usize = 0;
        proof {
            lemma_filter_none(keys@, wanted);
            assert(self@.sessions.dom() =~= self.sessions@.dom());
        }
        while i < keys.len()
            invariant
                i <= keys@.len(),
                wanted == (|key: DocumentKey|
                    self@.sessions[key].info.workspace == workspace),
                forall|j: int| #![trigger keys@[j]]
                    0 <= j < keys@.len() ==> self.sessions@.dom().contains(keys@[j]),
                order == self@.session_order(),
                r@ == sorted_by(keys@.take(i as int).filter(wanted), order),
                forall|j: int| #![trigger r@[j]]
                    0 <= j < r@.len() ==> self.sessions@.dom().contains(r@[j]),
            decreases keys@.len() - i,
        {
            let ghost listed = keys@.take(i as int).filter(wanted);
            proof {
                assert(self.sessions@.dom().contains(keys@[i as int]));
                lemma_filter_step(keys@, i as int, wanted);
            }
            match self.sessions.get(&keys[i]) {
                Some(saved) => {
                    if saved.info.workspace == workspace {
                        self.insert_session(&mut r, keys[i]);
                        proof {
                            assert(listed.push(keys@[i as int]).drop_last() =~= listed);
                            lemma_slot_bounds(
                                sorted_by(listed, order).map_values(order),
                                order(keys@[i as int]),
                            );
                        }
                    }
                },
                None => {},
            }
            i = i + 1;
        }
        proof {
            lemma_take_all(keys@);
        }
        r
    }

    /// The sessions of a workspace by their identities.
    pub fn sessions(&self, workspace: WorkspaceId) -> (r: Vec<SessionInfo>)
        ensures
            r@ == self@.listed_sessions(workspace).map_values(
                |key: DocumentKey| self@.sessions[key].info,
            ),
    {
        let keys = self.session_keys(workspace);
        let mut r: Vec<SessionInfo> = Vec::new();
        let mut i: usize = 0;
        while i < keys.len()
            invariant
                i <= keys@.len(),
                forall|j: int| #![trigger keys@[j]]
                    0 <= j < keys@.len() ==> self.sessions@.dom().contains(keys@[j]),
                r@.len() == i,
                forall|j: int| #![trigger r@[j]]
                    0 <= j < i ==> r@[j] == self@.sessions[keys@[j]].info,
            decreases keys@.len() - i,
        {
            proof {
                assert(self.sessions@.dom().contains(keys@[i as int]));
            }
            let saved = self.sessions.get(&keys[i]).unwrap();
            r.push(saved.info.clone());
            i = i + 1;
        }
        proof {
            assert(r@ =~= self@.listed_sessions(workspace).map_values(
                |key: DocumentKey| self@.sessions[key].info,
            ));
        }
        r
    }

    /// Renames a session. Its title is final then.
    pub fn rename_session(&mut self, id: SessionId, title: String) -> (r: Result<
        SessionInfo,
        StoreError,
    >)
        ensures
            retitles(old(self)@, id, title, final(self)@, r),
    {
        let ghost start = self@;
        let key = make_session_key(id);
        match self.sessions.take(&key) {
            Some(mut saved) => {
                saved.info.title = title;
                let info = saved.info.clone();
                let ghost updated = saved@;
                self.sessions.put(key, saved);
                let _ = self.provisional.take(&key);
                proof {
                    assert(self@.sessions =~= start.sessions.insert(key, updated));
                    assert(self@ =~= start.with_final_title(id, title));
                }
                Ok(info)
            },
            None => {
                proof {
                    assert(self@.sessions =~= start.sessions);
                    assert(self@ =~= start);
                }
                Err(StoreError::Corrupt { message: "session does not exist" })
            },
        }
    }

    /// Saves the draft of a session.
    pub fn save_draft(&mut self, id: SessionId, draft: String) -> (r: Result<(), StoreError>)
        ensures
            keeps_draft(old(self)@, id, draft, final(self)@, r),
    {
        let ghost start = self@;
        let key = make_session_key(id);
        match self.sessions.take(&key) {
            Some(mut saved) => {
                saved.draft = draft;
                let ghost updated = saved@;
                self.sessions.put(key, saved);
                proof {
                    assert(self@.sessions =~= start.sessions.insert(key, updated));
                    assert(self@ =~= start.with_session(id, updated));
                }
                Ok(())
            },
            None => {
                proof {
                    assert(self@.sessions =~= start.sessions);
                    assert(self@ =~= start);
                }
                Err(StoreError::Corrupt { message: "session does not exist" })
            },
        }
    }

    /// Archives a session, or takes it back.
    pub fn archive_session(&mut self, id: SessionId, archived: bool) -> (r: Result<
        SessionInfo,
        StoreError,
    >)
        ensures
            shelves(old(self)@, id, archived, final(self)@, r),
    {
        let ghost start = self@;
        let key = make_session_key(id);
        match self.sessions.take(&key) {
            Some(mut saved) => {
                saved.info.archived = archived;
                let info = saved.info.clone();
                let ghost updated = saved@;
                self.sessions.put(key, saved);
                proof {
                    assert(self@.sessions =~= start.sessions.insert(key, updated));
                    assert(self@ =~= start.with_session(id, updated));
                }
                Ok(info)
            },
            None => {
                proof {
                    assert(self@.sessions =~= start.sessions);
                    assert(self@ =~= start);
                }
                Err(StoreError::Corrupt { message: "session does not exist" })
            },
        }
    }

    /// Registers the runtime that a session runs with.
    pub fn start_runtime(
        &mut self,
        session: SessionId,
        runtime: SavedRuntime,
        agent_through: u64,
        now: i64,
    ) -> (r: Result<SessionSeq, StoreError>)
        ensures
            notes_start(old(self)@, session, runtime, agent_through, now, final(self)@, r),
    {
        let ghost start = self@;
        let key = make_session_key(session);
        match self.sessions.take(&key) {
            Some(mut saved) => {
                let event = SessionEvent::RuntimeStarted {
                    runtime: runtime.id,
                    config: Box::new(runtime.config.copy()),
                };
                let ghost event_view = event@;
                saved.runtime = Some(runtime);
                saved.agent_through = agent_through;
                let ghost updated = saved@;
                self.sessions.put(key, saved);
                let ghost stored = self@;
                proof {
                    assert(stored.sessions =~= start.sessions.insert(key, updated));
                }
                let sequence = self.append(session, StoredEvent::App(event), now);
                proof {
                    assert(stored.history(session) == start.history(session));
                    assert(self@ =~= start.with_event(session, updated, event_view, now));
                }
                Ok(sequence)
            },
            None => {
                proof {
                    assert(self@.sessions =~= start.sessions);
                    assert(self@ =~= start);
                }
                Err(StoreError::Corrupt { message: "session does not exist" })
            },
        }
    }

    /// Registers another configuration of a session's current runtime.
    pub fn reconfigure_runtime(
        &mut self,
        session: SessionId,
        runtime: RuntimeId,
        config: RuntimeConfig,
        now: i64,
    ) -> (r: Result<SessionSeq, StoreError>)
        ensures
            notes_reconfiguration(old(self)@, session, runtime, config, now, final(self)@, r),
    {
        let ghost start = self@;
        let key = make_session_key(session);
        match self.sessions.get(&key) {
            Some(saved) => {
                let current = match saved.runtime_id() {
                    Some(id) => id == runtime,
                    None => false,
                };
                if !current {
                    return Err(StoreError::Corrupt { message: "runtime is not current" });
                }
            },
            None => {
                return Err(StoreError::Corrupt { message: "session does not exist" });
            },
        }
        let mut saved = self.sessions.take(&key).unwrap();
        let event = SessionEvent::RuntimeReconfigured { runtime, config: Box::new(config.copy()) };
        let ghost event_view = event@;
        saved.runtime = Some(SavedRuntime { id: runtime, config });
        let ghost updated = saved@;
        self.sessions.put(key, saved);
        let ghost stored = self@;
        proof {
            assert(stored.sessions =~= start.sessions.insert(key, updated));
        }
        let sequence = self.append(session, StoredEvent::App(event), now);
        proof {
            assert(stored.history(session) == start.history(session));
            assert(self@ =~= start.with_event(session, updated, event_view, now));
        }
        Ok(sequence)
    }

    /// Registers that a runtime of a session was closed; only the current one leaves the session.
    pub fn close_runtime(&mut self, session: SessionId, runtime: RuntimeId, now: i64) -> (r: Result<
        SessionSeq,
        StoreError,
    >)
        ensures
            notes_close(old(self)@, session, runtime, now, final(self)@, r),
    {
        let ghost start = self@;
        let key = make_session_key(session);
        match self.sessions.take(&key) {
            Some(mut saved) => {
                let current = match saved.runtime_id() {
                    Some(id) => id == runtime,
                    None => false,
                };
                if current {
                    saved.runtime = None;
                    saved.agent_through = 0;
                }
                let ghost updated = saved@;
                self.sessions.put(key, saved);
                let ghost stored = self@;
                proof {
                    assert(stored.sessions =~= start.sessions.insert(key, updated));
                }
                let sequence = self.append(
                    session,
                    StoredEvent::App(SessionEvent::RuntimeClosed { runtime }),
                    now,
                );
                proof {
                    assert(stored.history(session) == start.history(session));
                    assert(self@ =~= start.with_event(
                        session,
                        updated,
                        SessionEventView::RuntimeClosed { runtime },
                        now,
                    ));
                }
                Ok(sequence)
            },
            None => {
                proof {
                    assert(self@.sessions =~= start.sessions);
                    assert(self@ =~= start);
                }
                Err(StoreError::Corrupt { message: "session does not exist" })
            },
        }
    }
}

impl StoreView {
    /// The store with a new session and nothing to project for it.
    pub open spec fn with_new_session(self, saved: SavedSessionView) -> StoreView {
        let key = session_key(saved.info.id);
        StoreView {
            sessions: self.sessions.insert(key, saved),
            result_projections: self.result_projections.insert(key, finished_projection()),
            evidence_projections: self.evidence_projections.insert(key, finished_projection()),
            ..self
        }
    }
}

/// A workspace that was found or made for a root is found again for it.
pub proof fn law_workspace_is_stable(workspaces: Seq<WorkspaceInfoView>, id: WorkspaceId, root: Seq<u8>)
    requires
        !has_root(workspaces, root),
    ensures
        ({
            let after = workspaces.push(WorkspaceInfoView { id, root });
            &&& has_root(after, root)
            &&& forall|i: int| #[trigger] rooted_at(after, root, i) ==> after[i].id == id
        }),
{
    let after = workspaces.push(WorkspaceInfoView { id, root });
    let n = workspaces.len() as int;
    assert forall|i: int| 0 <= i < n implies (#[trigger] after[i]).root != root by {
        if workspaces[i].root == root {
            lemma_has_root(workspaces, root, i);
        }
    }
    assert(rooted_at(after, root, n));
    assert forall|i: int| #[trigger] rooted_at(after, root, i) implies after[i].id == id by {
        if i < n {
            assert(after[i].root != root);
        }
    }
}

proof fn lemma_has_root(workspaces: Seq<WorkspaceInfoView>, root: Seq<u8>, index: int)
    requires
        0 <= index < workspaces.len(),
        workspaces[index].root == root,
    ensures
        has_root(workspaces, root),
    decreases index,
{
    if forall|i: int| 0 <= i < index ==> (#[trigger] workspaces[i]).root != root {
        assert(rooted_at(workspaces, root, index));
    } else {
        let i = choose|i: int| 0 <= i < index && (#[trigger] workspaces[i]).root == root;
        lemma_has_root(workspaces, root, i);
    }
}

} // verus!
