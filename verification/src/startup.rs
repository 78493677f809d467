//! Startup: where the store stands, which conversation is opened, and what the user is told where
//! something cannot be opened safely.

use vstd::prelude::*;

use crate::durable::error::{
    RegistryError, SessionLeaseError, SessionStoreError, WorkspaceError,
};
use crate::durable::repository::{record_views, SessionListing};
use crate::durable::session::{SessionLifecycle, SessionRecordView};
use crate::error::StoreError;
use crate::ids::SessionId;
use crate::path::{absolute, joined, FilePath};
use crate::seqs::{lemma_filter_none, lemma_filter_step, lemma_take_all};
use crate::settings::SettingsError;

verus! {

/// How often a draft is searched while sessions change.
pub const OPEN_RETRY_LIMIT: usize = 8;

/// The title of a new conversation.
pub const NEW_CONVERSATION_TITLE: &'static str = "New conversation";

/// Failures of choosing or opening the store.
#[derive(Debug, PartialEq, Eq)]
pub enum AppStorageError {
    MissingDefaultDataRoot,
    Store(StoreError),
}

/// A path of the environment, where it can be used: it is absolute.
pub open spec fn usable_path(value: Option<FilePath>) -> Option<Seq<u8>> {
    match value {
        Some(path) => if absolute(path@) {
            Some(path@)
        } else {
            None
        },
        None => None,
    }
}

/// The directory of user data: the configured one, else the conventional one in the home.
pub open spec fn data_home(configured: Option<FilePath>, home: Option<FilePath>) -> Option<Seq<u8>> {
    match usable_path(configured) {
        Some(path) => Some(path),
        None => match usable_path(home) {
            Some(path) => Some(joined(path, vstd::utf8::encode_utf8(".local/share"@))),
            None => None,
        },
    }
}

fn absolute_path(value: Option<FilePath>) -> (r: Option<FilePath>)
    ensures
        match r {
            Some(path) => usable_path(value) == Some(path@),
            None => usable_path(value) is None,
        },
{
    match value {
        Some(path) => if path.is_absolute() {
            Some(path)
        } else {
            None
        },
        None => None,
    }
}

/// Whether this is where the store is by default.
pub open spec fn roots(
    xdg_data_home: Option<FilePath>,
    home: Option<FilePath>,
    r: Result<FilePath, AppStorageError>,
) -> bool {
    match data_home(xdg_data_home, home) {
        Some(base) => r matches Ok(path) && path@ == joined(
            joined(base, vstd::utf8::encode_utf8("bone"@)),
            vstd::utf8::encode_utf8("store-v1"@),
        ),
        None => r matches Err(AppStorageError::MissingDefaultDataRoot),
    }
}

/// Where the store stands.
pub fn default_store_roots(xdg_data_home: Option<FilePath>, home: Option<FilePath>) -> (r: Result<
    FilePath,
    AppStorageError,
>)
    ensures
        roots(xdg_data_home, home, r),
{
    let base = match absolute_path(xdg_data_home) {
        Some(path) => path,
        None => match absolute_path(home) {
            Some(path) => path.join(&FilePath::from_text(".local/share")),
            None => {
                return Err(AppStorageError::MissingDefaultDataRoot);
            },
        },
    };
    Ok(base.join(&FilePath::from_text("bone")).join(&FilePath::from_text("store-v1")))
}

/// Whether startup found a session or made one.
#[derive(Clone, Copy, Debug, PartialEq, Eq, Structural)]
pub enum DraftDisposition {
    Restored,
    Created,
}

/// What to do next about the conversation of startup.
#[derive(Clone, Copy, Debug, PartialEq, Eq, Structural)]
pub enum DraftAction {
    /// List the sessions.
    List,
    /// Take the writer of a session and mark it as opened.
    Open(SessionId),
    /// Make a new session.
    Create,
    /// Give up: sessions change too fast.
    GiveUp,
}

/// What became of an attempt to open a session.
#[derive(Clone, Copy, Debug, PartialEq, Eq, Structural)]
pub enum OpenOutcome {
    /// Another process writes to it.
    HeldElsewhere,
    /// It is gone, or changed before it could be marked.
    Changed,
}

/// Whether this is what a refused lease means for the search.
pub open spec fn outcome_of_lease(
    error: SessionLeaseError,
    r: Option<OpenOutcome>,
) -> bool {
    r == (match error {
        SessionLeaseError::HeldElsewhere { .. } => Some(OpenOutcome::HeldElsewhere),
        SessionLeaseError::NotFound(_) => Some(OpenOutcome::Changed),
        SessionLeaseError::Session(_) => None,
    })
}

/// What became of an attempt to take a writer, where it failed.
pub fn lease_outcome(error: &SessionLeaseError) -> (r: Option<OpenOutcome>)
    ensures
        outcome_of_lease(*error, r),
{
    match error {
        SessionLeaseError::HeldElsewhere { .. } => Some(OpenOutcome::HeldElsewhere),
        SessionLeaseError::NotFound(_) => Some(OpenOutcome::Changed),
        SessionLeaseError::Session(_) => None,
    }
}

/// Whether this is what a refused mark means for the search.
pub open spec fn outcome_of_mark(
    error: SessionStoreError,
    r: Option<OpenOutcome>,
) -> bool {
    r == (match error {
        SessionStoreError::NotFound(_) => Some(OpenOutcome::Changed),
        SessionStoreError::RevisionConflict { .. } => Some(OpenOutcome::Changed),
        _ => None,
    })
}

/// What became of an attempt to mark a session as opened, where it failed.
pub fn mark_outcome(error: &SessionStoreError) -> (r: Option<OpenOutcome>)
    ensures
        outcome_of_mark(*error, r),
{
    match error {
        SessionStoreError::NotFound(_) => Some(OpenOutcome::Changed),
        SessionStoreError::RevisionConflict { .. } => Some(OpenOutcome::Changed),
        _ => None,
    }
}

/// Whether a session is shown.
pub open spec fn is_active() -> spec_fn(SessionRecordView) -> bool {
    |record: SessionRecordView| record.status.lifecycle == SessionLifecycle::Active
}

/// The sessions that startup tries, newest first: the active ones.
pub open spec fn candidates(records: Seq<SessionRecordView>) -> Seq<SessionId> {
    records.filter(is_active()).map_values(|record: SessionRecordView| record.id)
}

/// The search for the conversation of startup.
pub struct DraftSearch {
    /// How often the sessions were listed.
    pub listings: usize,
    /// The sessions that are left to try.
    pub candidates: Vec<SessionId>,
    pub next: usize,
}

/// What the search does next with the sessions that are left.
pub open spec fn search_action(candidates: Seq<SessionId>, next: int) -> DraftAction {
    if next < candidates.len() {
        DraftAction::Open(candidates[next])
    } else {
        DraftAction::Create
    }
}

/// Whether a failed attempt gives this search and this action.
pub open spec fn search_goes_on(
    before: DraftSearch,
    outcome: OpenOutcome,
    after: DraftSearch,
    r: DraftAction,
) -> bool {
    &&& after.candidates@ == before.candidates@
    &&& after.listings == before.listings
    &&& match outcome {
        OpenOutcome::HeldElsewhere => {
            &&& after.next == before.next + 1
            &&& r == search_action(after.candidates@, after.next as int)
        },
        OpenOutcome::Changed => {
            &&& after.next == before.next
            &&& r == (if after.listings < OPEN_RETRY_LIMIT {
                DraftAction::List
            } else {
                DraftAction::GiveUp
            })
        },
    }
}

/// Whether a listing gives this search and this action.
pub open spec fn search_begins(
    before: DraftSearch,
    records: Seq<SessionRecordView>,
    after: DraftSearch,
    r: DraftAction,
) -> bool {
    &&& after.listings == before.listings + 1
    &&& after.candidates@ == candidates(records)
    &&& after.next == 0
    &&& r == search_action(after.candidates@, 0)
}

impl DraftSearch {
    /// A search that has not begun. It begins with a listing.
    pub fn new() -> (r: (DraftSearch, DraftAction))
        ensures
            r.0.listings == 0,
            r.0.candidates@ == Seq::<SessionId>::empty(),
            r.0.next == 0,
            r.1 == DraftAction::List,
    {
        (DraftSearch { listings: 0, candidates: Vec::new(), next: 0 }, DraftAction::List)
    }

    /// Takes a listing: its active sessions are tried in its order, and a new one is made where
    /// there are none.
    pub fn listed(&mut self, listing: &SessionListing) -> (r: DraftAction)
        requires
            old(self).listings < OPEN_RETRY_LIMIT,
        ensures
            search_begins(*old(self), record_views(listing.records@), *final(self), r),
    {
        let ghost views = record_views(listing.records@);
        let ghost id_of = |record: SessionRecordView| record.id;
        let mut found: Vec<SessionId> = Vec::new();
        let mut i: usize = 0;
        proof {
            lemma_filter_none(views, is_active());
            assert(found@ =~= views.take(0).filter(is_active()).map_values(id_of));
        }
        while i < listing.records.len()
            invariant
                i <= listing.records@.len(),
                views == record_views(listing.records@),
                id_of == (|record: SessionRecordView| record.id),
                found@ == views.take(i as int).filter(is_active()).map_values(id_of),
            decreases listing.records@.len() - i,
        {
            let record = &listing.records[i];
            proof {
                assert(views[i as int] == record@);
                lemma_filter_step(views, i as int, is_active());
            }
            let ghost earlier = views.take(i as int).filter(is_active());
            let active = match record.status.lifecycle {
                SessionLifecycle::Active => true,
                _ => false,
            };
            if active {
                found.push(record.id);
                proof {
                    assert(found@ =~= earlier.push(record@).map_values(id_of));
                }
            }
            i = i + 1;
        }
        proof {
            lemma_take_all(views);
        }
        self.listings = self.listings + 1;
        self.candidates = found;
        self.next = 0;
        if self.candidates.len() > 0 {
            DraftAction::Open(self.candidates[0])
        } else {
            DraftAction::Create
        }
    }

    /// Takes the failure of the last attempt to open a session: the next one is tried where it is
    /// held elsewhere; where sessions changed they are listed again, a few times at most.
    pub fn failed(&mut self, outcome: OpenOutcome) -> (r: DraftAction)
        requires
            old(self).next < old(self).candidates@.len(),
        ensures
            search_goes_on(*old(self), outcome, *final(self), r),
    {
        match outcome {
            OpenOutcome::HeldElsewhere => {
                let count: usize = self.candidates.len();
                self.next = self.next + 1;
                if self.next < count {
                    DraftAction::Open(self.candidates[self.next])
                } else {
                    DraftAction::Create
                }
            },
            OpenOutcome::Changed => {
                if self.listings < OPEN_RETRY_LIMIT {
                    DraftAction::List
                } else {
                    DraftAction::GiveUp
                }
            },
        }
    }
}

/// Failures of opening a workspace application.
#[derive(Debug, PartialEq, Eq)]
pub enum WorkspaceApplicationError {
    /// Sessions changed repeatedly while a draft was opened.
    ConcurrentDraftOpen,
    Store(StoreError),
    AppStorage(AppStorageError),
    Registry(RegistryError),
    Workspace(WorkspaceError),
    Sessions(SessionStoreError),
    Lease(SessionLeaseError),
}

/// Failures of the terminal interface.
#[derive(Debug, PartialEq, Eq)]
pub enum TuiError {
    Workspace(WorkspaceApplicationError),
    SessionStore(SessionStoreError),
    Settings(SettingsError),
    Io(String),
    Agent(String),
    Start(String),
    Input(String),
}

/// What the user is told where the settings cannot be opened.
pub fn settings_repair_reason(_error: &SettingsError) -> (r: &'static str)
    ensures
        r == "The saved BONE settings could not be opened, decoded, or validated safely.",
{
    "The saved BONE settings could not be opened, decoded, or validated safely."
}

/// What the user is told where the store cannot be opened.
pub open spec fn store_reason(error: StoreError) -> &'static str {
    match error {
        StoreError::Busy => "Another BONE process is using the local store.",
        StoreError::Corrupt { .. } =>
            "The local BONE SQLite database may be damaged or is not a SQLite database.",
        StoreError::UnsupportedSchema => "This BONE store uses an unsupported schema version.",
        StoreError::UnsafeStorage { .. } =>
            "The local BONE storage location did not pass its privacy and safety checks.",
        _ => "BONE could not safely open its local storage.",
    }
}

/// What the user is told where the store cannot be opened.
pub fn storage_repair_reason(error: &StoreError) -> (r: &'static str)
    ensures
        r == store_reason(*error),
{
    match error {
        StoreError::Busy => "Another BONE process is using the local store.",
        StoreError::Corrupt { .. } =>
            "The local BONE SQLite database may be damaged or is not a SQLite database.",
        StoreError::UnsupportedSchema => "This BONE store uses an unsupported schema version.",
        StoreError::UnsafeStorage { .. } =>
            "The local BONE storage location did not pass its privacy and safety checks.",
        _ => "BONE could not safely open its local storage.",
    }
}

/// What the user is told where the default store cannot be opened.
pub fn default_store_repair_reason(error: &AppStorageError) -> (r: &'static str)
    ensures
        r == (match *error {
            AppStorageError::Store(error) => store_reason(error),
            AppStorageError::MissingDefaultDataRoot =>
                "BONE could not determine a safe local data directory.",
        }),
{
    match error {
        AppStorageError::Store(error) => storage_repair_reason(error),
        AppStorageError::MissingDefaultDataRoot =>
            "BONE could not determine a safe local data directory.",
    }
}

/// What the user is told where a workspace cannot be opened; nothing where that is no damage of
/// the local state.
pub open spec fn workspace_reason(error: WorkspaceApplicationError) -> Option<&'static str> {
    match error {
        WorkspaceApplicationError::Workspace(WorkspaceError::Registry(_)) => Some(
            "The local Workspace registry could not be opened safely.",
        ),
        WorkspaceApplicationError::Workspace(_) => None,
        WorkspaceApplicationError::ConcurrentDraftOpen => Some(
            "BONE could not safely select a writable saved conversation.",
        ),
        _ => Some("The local Workspace and conversation state could not be opened safely."),
    }
}

/// What the user is told where a workspace cannot be opened.
pub fn workspace_repair_reason(error: &WorkspaceApplicationError) -> (r: Option<&'static str>)
    ensures
        r == workspace_reason(*error),
{
    match error {
        WorkspaceApplicationError::Workspace(WorkspaceError::Registry(_)) => Some(
            "The local Workspace registry could not be opened safely.",
        ),
        WorkspaceApplicationError::Workspace(_) => None,
        WorkspaceApplicationError::ConcurrentDraftOpen => Some(
            "BONE could not safely select a writable saved conversation.",
        ),
        _ => Some("The local Workspace and conversation state could not be opened safely."),
    }
}

/// What the user is told where the terminal interface fails; nothing where that is no damage of
/// the local state.
pub open spec fn tui_reason(error: TuiError) -> Option<&'static str> {
    match error {
        TuiError::Workspace(error) => workspace_reason(error),
        TuiError::SessionStore(_) => Some(
            "The local conversation data could not be read or updated safely.",
        ),
        TuiError::Settings(_) => Some(
            "The saved BONE settings could not be opened, decoded, or validated safely.",
        ),
        _ => None,
    }
}

/// What the user is told where the terminal interface fails.
pub fn tui_storage_repair_reason(error: &TuiError) -> (r: Option<&'static str>)
    ensures
        r == tui_reason(*error),
{
    match error {
        TuiError::Workspace(error) => workspace_repair_reason(error),
        TuiError::SessionStore(_) => Some(
            "The local conversation data could not be read or updated safely.",
        ),
        TuiError::Settings(_) => Some(
            "The saved BONE settings could not be opened, decoded, or validated safely.",
        ),
        _ => None,
    }
}

/// The parts of startup, in the order in which they are opened.
#[derive(Clone, Copy, Debug, PartialEq, Eq, Structural)]
pub enum BootStep {
    Store,
    Workspace,
    Settings,
    /// The model that was asked for is checked against the settings.
    Model,
    Conversation,
}

/// Why a part of startup failed.
#[derive(Debug, PartialEq, Eq)]
pub enum BootFailure {
    Store(AppStorageError),
    Workspace(WorkspaceApplicationError),
    Settings(SettingsError),
    /// The model that was asked for belongs to a profile that does not exist.
    UnknownProfile,
    Conversation(TuiError),
}

/// What startup does next.
#[derive(Debug, PartialEq, Eq)]
pub enum BootAction {
    Open(BootStep),
    /// Shows the user why the local state cannot be used, and asks whether to try again. Nothing is
    /// reset.
    Repair(&'static str),
    /// Reports what the conversation left over, and ends.
    Report,
    /// Ends without an error.
    Quit,
    /// Ends with the failure.
    Fail,
}

/// Whether this comes after a step of the start.
pub open spec fn boots(
    step: BootStep,
    r: BootAction,
) -> bool {
    r == (match step {
        BootStep::Store => BootAction::Open(BootStep::Workspace),
        BootStep::Workspace => BootAction::Open(BootStep::Settings),
        BootStep::Settings => BootAction::Open(BootStep::Model),
        BootStep::Model => BootAction::Open(BootStep::Conversation),
        BootStep::Conversation => BootAction::Report,
    })
}

/// What startup does after a part was opened.
pub fn boot_opened(step: BootStep) -> (r: BootAction)
    ensures
        boots(step, r),
{
    match step {
        BootStep::Store => BootAction::Open(BootStep::Workspace),
        BootStep::Workspace => BootAction::Open(BootStep::Settings),
        BootStep::Settings => BootAction::Open(BootStep::Model),
        BootStep::Model => BootAction::Open(BootStep::Conversation),
        BootStep::Conversation => BootAction::Report,
    }
}

/// Why the local state has to be repaired after a failure; nothing where the failure is no damage
/// of it.
pub open spec fn repair_reason(failure: BootFailure) -> Option<&'static str> {
    match failure {
        BootFailure::Store(AppStorageError::Store(error)) => Some(store_reason(error)),
        BootFailure::Store(AppStorageError::MissingDefaultDataRoot) => Some(
            "BONE could not determine a safe local data directory.",
        ),
        BootFailure::Workspace(error) => workspace_reason(error),
        BootFailure::Settings(_) => Some(
            "The saved BONE settings could not be opened, decoded, or validated safely.",
        ),
        BootFailure::UnknownProfile => None,
        BootFailure::Conversation(error) => tui_reason(error),
    }
}

/// Whether this comes after a failure of the start.
pub open spec fn fails_boot(
    failure: BootFailure,
    r: BootAction,
) -> bool {
    r == (match repair_reason(failure) {
        Some(reason) => BootAction::Repair(reason),
        None => BootAction::Fail,
    })
}

/// What startup does after a part failed: the user is asked to repair the local state, or startup
/// fails.
pub fn boot_failed(failure: &BootFailure) -> (r: BootAction)
    ensures
        fails_boot(*failure, r),
{
    let reason = match failure {
        BootFailure::Store(error) => Some(default_store_repair_reason(error)),
        BootFailure::Workspace(error) => workspace_repair_reason(error),
        BootFailure::Settings(error) => Some(settings_repair_reason(error)),
        BootFailure::UnknownProfile => None,
        BootFailure::Conversation(error) => tui_storage_repair_reason(error),
    };
    match reason {
        Some(reason) => BootAction::Repair(reason),
        None => BootAction::Fail,
    }
}

/// What startup does after the user was asked to repair the local state: it opens everything again
/// from the store on, or ends.
pub fn boot_repaired(again: bool) -> (r: BootAction)
    ensures
        r == (if again {
            BootAction::Open(BootStep::Store)
        } else {
            BootAction::Quit
        }),
{
    if again {
        BootAction::Open(BootStep::Store)
    } else {
        BootAction::Quit
    }
}

/// What the user is told of jobs that are left over; nothing where there are none.
pub open spec fn unresolved_text(count: usize) -> Option<Seq<char>> {
    if count > 0 {
        Some(
            crate::text::decimal(count as nat) + " job(s) remain unresolved after shutdown."@,
        )
    } else {
        None
    }
}

/// What the user is told of jobs that are left over.
pub fn report_unresolved(count: usize) -> (r: Option<String>)
    ensures
        match r {
            Some(text) => unresolved_text(count) == Some(text@),
            None => unresolved_text(count) is None,
        },
{
    if count == 0 {
        return None;
    }
    let mut text = crate::text::decimal_string(count as u64);
    text.push_str(" job(s) remain unresolved after shutdown.");
    Some(text)
}

/// A search tries every active session of a listing before it makes a new one.
pub proof fn law_new_session_only_after_all_were_tried(
    candidates: Seq<SessionId>,
    next: int,
)
    requires
        0 <= next,
        search_action(candidates, next) == DraftAction::Create,
    ensures
        next >= candidates.len(),
{
}

} // verus!
