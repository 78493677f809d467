//! The application: its store, the sessions that are open, and what its users can ask of it.

pub mod config_files;
pub mod configuring;
pub mod keys;
pub mod live;
pub mod login;
pub mod queries;
pub mod reload;
pub mod shutdown;

use vstd::prelude::*;

use crate::document::Table;
use crate::ids::WorkspaceId;
use crate::persistence::DataStore;

verus! {

/// A session that is open.
#[derive(Clone, Copy, Debug, PartialEq, Eq, Structural)]
pub struct LiveSession {
    pub workspace: WorkspaceId,
    /// Whether it is being released.
    pub releasing: bool,
}

/// The application.
pub struct App {
    pub store: DataStore,
    /// The open sessions, under their keys in the store.
    pub sessions: Table<LiveSession>,
    /// Whether it is shut down.
    pub closed: bool,
}

impl App {
    /// An application on a store, without open sessions.
    pub fn open(store: DataStore) -> (r: App)
        ensures
            r.store@ == store@,
            r.sessions@ == Map::<crate::document::DocumentKey, LiveSession>::empty(),
            !r.closed,
    {
        App { store, sessions: Table::new(), closed: false }
    }
}

} // verus!
