//! How the application takes up its configuration files again, and which open sessions it tells.

use vstd::prelude::*;

use super::App;
use crate::api::WorkspaceInfo;
use crate::error::{Error, StoreError};
use crate::file_config::{
    project_loaded, project_path_of, reports, user_loaded, AdapterDefaults, Fault, FileConfigs,
    FileConfigsView, FileContent, ProjectConfig, ProjectConfigStatus, ProjectStateView, UserConfig,
};
use crate::ids::{SessionId, WorkspaceId};
use crate::path::FilePath;
use crate::persistence::keys::workspace_key;

verus! {

/// Whether the application reports a fault of a configuration file as this error.
pub open spec fn shows(error: Error, fault: Fault) -> bool {
    exists|cause: StoreError| reports(cause, fault) && #[trigger] cause.becomes(error)
}

/// Reports an error of the configuration files.
fn shown(cause: StoreError, Ghost(fault): Ghost<Fault>) -> (r: Error)
    requires
        reports(cause, fault),
    ensures
        shows(r, fault),
{
    let error = cause.into_error();
    assert(cause.becomes(error));
    error
}

/// Whether this is how the configuration of a project is shown.
pub open spec fn shows_project(
    app: App,
    configs: FileConfigsView,
    workspace: WorkspaceId,
    r: Result<ProjectConfigStatus, Error>,
) -> bool {
    if app.closed {
        r matches Err(error) && error == Error::Closed
    } else if !app.store@.has_workspace(workspace) {
        r matches Err(error) && error == Error::WorkspaceNotFound
    } else if !configs.has_project(workspace) {
        r matches Err(Error::Storage(message)) && message@
            == "workspace configuration was not loaded"@
    } else {
        let project = configs.project(workspace);
        &&& r matches Ok(status)
        &&& status.path@ == project_path_of(project.root)
        &&& status.exists == (project.digest is Some)
        &&& status.overrides == project.value.overrides
    }
}

/// Whether reading the user configuration again gives this configuration and this answer.
pub open spec fn reloads_user(
    app: App,
    held: FileConfigsView,
    content: FileContent<UserConfig>,
    defaults: AdapterDefaults,
    loaded: FileConfigsView,
    r: Result<Vec<SessionId>, Error>,
) -> bool {
    if app.closed {
        &&& loaded == held
        &&& r matches Err(error) && error == Error::Closed
    } else {
        match user_loaded(content, defaults) {
            Err(fault) => {
                &&& loaded == held
                &&& r matches Err(error) && shows(error, fault)
            },
            Ok((user, user_digest)) => {
                &&& loaded == (FileConfigsView { user, user_digest, ..held })
                &&& r matches Ok(told) && told@ == app.active(None)
            },
        }
    }
}

/// Whether reading the configuration of a project again gives this configuration and this answer.
pub open spec fn reloads_project(
    app: App,
    held: FileConfigsView,
    workspace: WorkspaceId,
    path: FilePath,
    content: FileContent<ProjectConfig>,
    loaded: FileConfigsView,
    r: Result<(ProjectConfigStatus, Vec<SessionId>), Error>,
) -> bool {
    if app.closed {
        &&& loaded == held
        &&& r matches Err(error) && error == Error::Closed
    } else if !app.store@.has_workspace(workspace) {
        &&& loaded == held
        &&& r matches Err(error) && error == Error::WorkspaceNotFound
    } else {
        match project_loaded(content) {
            Err(fault) => {
                &&& loaded == held
                &&& r matches Err(error) && shows(error, fault)
            },
            Ok((value, digest)) => {
                &&& loaded == (FileConfigsView {
                    projects: held.projects.insert(
                        workspace_key(workspace),
                        ProjectStateView {
                            root: app.store@.root_of(workspace),
                            value,
                            digest,
                        },
                    ),
                    ..held
                })
                &&& r matches Ok((status, told))
                &&& status.path == path
                &&& status.exists == (digest is Some)
                &&& status.overrides == value.overrides
                &&& told@ == app.active(Some(workspace))
            },
        }
    }
}

/// Whether reading both configurations again gives this configuration and this answer.
pub open spec fn reloads_both(
    app: App,
    held: FileConfigsView,
    user: FileContent<UserConfig>,
    defaults: AdapterDefaults,
    workspace: WorkspaceId,
    path: FilePath,
    project: FileContent<ProjectConfig>,
    loaded: FileConfigsView,
    r: Result<(ProjectConfigStatus, Vec<SessionId>), Error>,
) -> bool {
    if app.closed {
        &&& loaded == held
        &&& r matches Err(error) && error == Error::Closed
    } else if !app.store@.has_workspace(workspace) {
        &&& loaded == held
        &&& r matches Err(error) && error == Error::WorkspaceNotFound
    } else {
        match (user_loaded(user, defaults), project_loaded(project)) {
            (Err(fault), _) => {
                &&& loaded == held
                &&& r matches Err(error) && shows(error, fault)
            },
            (Ok(_), Err(fault)) => {
                &&& loaded == held
                &&& r matches Err(error) && shows(error, fault)
            },
            (Ok((user_value, user_digest)), Ok((value, digest))) => {
                &&& loaded == (FileConfigsView {
                    bone_home: held.bone_home,
                    user: user_value,
                    user_digest,
                    projects: held.projects.insert(
                        workspace_key(workspace),
                        ProjectStateView {
                            root: app.store@.root_of(workspace),
                            value,
                            digest,
                        },
                    ),
                })
                &&& r matches Ok((status, told))
                &&& status.path == path
                &&& status.exists == (digest is Some)
                &&& status.overrides == value.overrides
                &&& told@ == app.active(None)
            },
        }
    }
}

impl App {
    /// What is known of the configuration file of a workspace.
    pub fn project_config_status(&self, configs: &FileConfigs, workspace: WorkspaceId) -> (r: Result<
        ProjectConfigStatus,
        Error,
    >)
        ensures
            shows_project(*self, configs@, workspace, r),
    {
        if self.closed {
            return Err(Error::Closed);
        }
        match self.find_workspace(workspace) {
            Ok(_) => {},
            Err(error) => {
                return Err(error);
            },
        }
        match configs.project_status(workspace) {
            Some(status) => Ok(status),
            None => Err(Error::Storage("workspace configuration was not loaded".to_owned())),
        }
    }

    /// Takes up the user's configuration again, and says which sessions are to be told: all that
    /// are open.
    pub fn reload_user_config(
        &self,
        configs: &mut FileConfigs,
        content: FileContent<UserConfig>,
        defaults: AdapterDefaults,
    ) -> (r: Result<Vec<SessionId>, Error>)
        requires
            defaults.usable(),
        ensures
            reloads_user(*self, old(configs)@, content, defaults, final(configs)@, r),
    {
        if self.closed {
            return Err(Error::Closed);
        }
        let ghost loaded = user_loaded(content, defaults);
        match configs.reload_user(content, defaults) {
            Ok(()) => Ok(self.active_sessions(None)),
            Err(error) => Err(shown(error, Ghost(loaded->Err_0))),
        }
    }

    /// Takes up the configuration of a workspace again, whose file stands at `path`, and says which
    /// sessions are to be told: those that are open in it.
    pub fn reload_workspace_config(
        &self,
        configs: &mut FileConfigs,
        workspace: WorkspaceId,
        path: FilePath,
        content: FileContent<ProjectConfig>,
    ) -> (r: Result<(ProjectConfigStatus, Vec<SessionId>), Error>)
        ensures
            reloads_project(*self, old(configs)@, workspace, path, content, final(configs)@, r),
    {
        if self.closed {
            return Err(Error::Closed);
        }
        let found: WorkspaceInfo = match self.find_workspace(workspace) {
            Ok(found) => found,
            Err(error) => {
                return Err(error);
            },
        };
        let ghost loaded = project_loaded(content);
        match configs.load_workspace(&found, path, content) {
            Ok(status) => Ok((status, self.active_sessions(Some(workspace)))),
            Err(error) => Err(shown(error, Ghost(loaded->Err_0))),
        }
    }

    /// Takes up both files again, or neither where one of them is invalid, and says which sessions
    /// are to be told: all that are open.
    pub fn reload_config(
        &self,
        configs: &mut FileConfigs,
        user: FileContent<UserConfig>,
        defaults: AdapterDefaults,
        workspace: WorkspaceId,
        path: FilePath,
        project: FileContent<ProjectConfig>,
    ) -> (r: Result<(ProjectConfigStatus, Vec<SessionId>), Error>)
        requires
            defaults.usable(),
        ensures
            reloads_both(*self, old(configs)@, user, defaults, workspace, path, project, final(configs)@, r),
    {
        if self.closed {
            return Err(Error::Closed);
        }
        let found: WorkspaceInfo = match self.find_workspace(workspace) {
            Ok(found) => found,
            Err(error) => {
                return Err(error);
            },
        };
        let ghost fault = match user_loaded(user, defaults) {
            Err(fault) => fault,
            Ok(_) => project_loaded(project)->Err_0,
        };
        match configs.reload_all(user, defaults, &found, path, project) {
            Ok(status) => Ok((status, self.active_sessions(None))),
            Err(error) => Err(shown(error, Ghost(fault))),
        }
    }
}

} // verus!
