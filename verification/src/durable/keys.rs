//! The addresses of workspace and session documents. They are part of the format on disk.

use vstd::prelude::*;

use super::repository::{make_session_prefix, session_prefix};
use crate::ids::{hyphenated, SessionId, WorkspaceId};

verus! {

/// What is stored under an address.
#[derive(Clone, Copy, Debug, PartialEq, Eq, Structural)]
pub enum DurableKey {
    GlobalSettings,
    WorkspaceRegistry,
    WorkspaceSettings(WorkspaceId),
    SessionDocument(WorkspaceId, SessionId),
    SessionJournal(WorkspaceId, SessionId),
    SessionWriterLease(SessionId),
}

impl DurableKey {
    /// The namespace of an address.
    pub open spec fn namespace_text(self) -> Seq<char> {
        match self {
            DurableKey::GlobalSettings => "settings"@,
            _ => "state"@,
        }
    }

    /// The text of an address.
    pub open spec fn text(self) -> Seq<char> {
        match self {
            DurableKey::GlobalSettings => "global"@,
            DurableKey::WorkspaceRegistry => "workspace-registry"@,
            DurableKey::WorkspaceSettings(workspace) => "workspace/"@ + hyphenated(workspace.0)
                + "/settings"@,
            DurableKey::SessionDocument(workspace, session) => session_prefix(workspace)
                + hyphenated(session.0),
            DurableKey::SessionJournal(workspace, session) => session_prefix(workspace)
                + hyphenated(session.0) + "/events"@,
            DurableKey::SessionWriterLease(session) => "session-"@ + hyphenated(session.0),
        }
    }

    /// The namespace of an address.
    pub fn namespace(self) -> (r: &'static str)
        ensures
            r@ == self.namespace_text(),
    {
        match self {
            DurableKey::GlobalSettings => "settings",
            _ => "state",
        }
    }

    /// The text of an address.
    pub fn to_text(self) -> (r: String)
        ensures
            r@ == self.text(),
    {
        match self {
            DurableKey::GlobalSettings => "global".to_owned(),
            DurableKey::WorkspaceRegistry => "workspace-registry".to_owned(),
            DurableKey::WorkspaceSettings(workspace) => {
                let mut text = "workspace/".to_owned();
                text.push_str(workspace.text().as_str());
                text.push_str("/settings");
                text
            },
            DurableKey::SessionDocument(workspace, session) => {
                let mut text = make_session_prefix(workspace);
                text.push_str(session.text().as_str());
                text
            },
            DurableKey::SessionJournal(workspace, session) => {
                let mut text = make_session_prefix(workspace);
                text.push_str(session.text().as_str());
                text.push_str("/events");
                text
            },
            DurableKey::SessionWriterLease(session) => {
                let mut text = "session-".to_owned();
                text.push_str(session.text().as_str());
                text
            },
        }
    }
}

/// Behind the prefix of its workspace, the address of a session document is the text of the
/// session's identity, which a listing reads back.
pub proof fn law_session_address_names_its_session(workspace: WorkspaceId, session: SessionId)
    ensures
        ({
            let text = DurableKey::SessionDocument(workspace, session).text();
            let prefix = session_prefix(workspace);
            &&& text.take(prefix.len() as int) == prefix
            &&& text.skip(prefix.len() as int) == hyphenated(session.0)
        }),
{
    let text = DurableKey::SessionDocument(workspace, session).text();
    let prefix = session_prefix(workspace);
    assert(text.take(prefix.len() as int) =~= prefix);
    assert(text.skip(prefix.len() as int) =~= hyphenated(session.0));
}

} // verus!
