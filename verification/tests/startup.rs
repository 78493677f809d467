use bone_app::durable::error::{SessionLeaseError, SessionStoreError, WorkspaceError};
use bone_app::error::StoreError;
use bone_app::ids::SessionId;
use bone_app::path::FilePath;
use bone_app::settings::SettingsError;
use bone_app::startup::{
    boot_failed, boot_opened, boot_repaired, default_store_repair_reason, default_store_roots, lease_outcome, mark_outcome,
    report_unresolved, settings_repair_reason, storage_repair_reason, tui_storage_repair_reason,
    workspace_repair_reason, AppStorageError, BootAction, BootFailure, BootStep, OpenOutcome, TuiError, WorkspaceApplicationError,
};

fn path(text: &str) -> FilePath {
    FilePath::from_text(text)
}

#[test]
fn xdg_data_home_wins_when_absolute() {
    let root = default_store_roots(Some(path("/tmp/xdg-data")), Some(path("/tmp/home"))).unwrap();
    assert_eq!(root, path("/tmp/xdg-data/bone/store-v1"));
}

#[test]
fn home_is_the_fallback_for_missing_or_relative_xdg_data_home() {
    let root = default_store_roots(Some(path("relative")), Some(path("/tmp/home"))).unwrap();
    assert_eq!(root, path("/tmp/home/.local/share/bone/store-v1"));
}

#[test]
fn no_absolute_data_location_is_an_explicit_error() {
    assert!(matches!(
        default_store_roots(None, Some(path("relative"))),
        Err(AppStorageError::MissingDefaultDataRoot)
    ));
}

#[test]
fn durable_startup_failures_route_to_the_safe_storage_repair_screen() {
    let session_error =
        WorkspaceApplicationError::Sessions(SessionStoreError::NotFound(SessionId::new()));
    assert!(workspace_repair_reason(&session_error).is_some());

    let workspace_error = WorkspaceApplicationError::Workspace(WorkspaceError::NotDirectory {
        path: path("/not-a-directory"),
    });
    assert!(workspace_repair_reason(&workspace_error).is_none());

    let tui_error = TuiError::SessionStore(SessionStoreError::NotFound(SessionId::new()));
    assert!(tui_storage_repair_reason(&tui_error).is_some());
}

#[test]
fn settings_startup_failures_route_to_the_safe_storage_repair_screen() {
    assert!(!settings_repair_reason(&SettingsError::NonPositive {
        field: "soft_deadline_seconds",
    })
    .is_empty());
}

#[test]
fn startup_opens_its_parts_in_turn_and_resets_nothing() {
    assert_eq!(
        boot_opened(BootStep::Store),
        BootAction::Open(BootStep::Workspace)
    );
    assert_eq!(
        boot_opened(BootStep::Workspace),
        BootAction::Open(BootStep::Settings)
    );
    assert_eq!(
        boot_opened(BootStep::Settings),
        BootAction::Open(BootStep::Model)
    );
    assert_eq!(
        boot_opened(BootStep::Model),
        BootAction::Open(BootStep::Conversation)
    );
    assert_eq!(boot_opened(BootStep::Conversation), BootAction::Report);
    assert_eq!(
        boot_failed(&BootFailure::Store(AppStorageError::Store(StoreError::Busy))),
        BootAction::Repair("Another BONE process is using the local store.")
    );
    assert_eq!(
        boot_failed(&BootFailure::Workspace(WorkspaceApplicationError::Workspace(
            WorkspaceError::NotDirectory { path: path("/a") }
        ))),
        BootAction::Fail
    );
    assert_eq!(boot_failed(&BootFailure::UnknownProfile), BootAction::Fail);
    assert_eq!(
        boot_failed(&BootFailure::Conversation(TuiError::Io("gone".into()))),
        BootAction::Fail
    );
    assert!(matches!(
        boot_failed(&BootFailure::Settings(SettingsError::Contention)),
        BootAction::Repair(_)
    ));
    assert_eq!(boot_repaired(true), BootAction::Open(BootStep::Store));
    assert_eq!(boot_repaired(false), BootAction::Quit);
}

#[test]
fn each_store_failure_has_its_own_reason() {
    assert_eq!(
        storage_repair_reason(&StoreError::Busy),
        "Another BONE process is using the local store."
    );
    assert_eq!(
        storage_repair_reason(&StoreError::UnsupportedSchema),
        "This BONE store uses an unsupported schema version."
    );
    assert_eq!(
        default_store_repair_reason(&AppStorageError::MissingDefaultDataRoot),
        "BONE could not determine a safe local data directory."
    );
}

#[test]
fn a_held_session_is_skipped_and_a_lost_one_is_looked_up_again() {
    let id = SessionId::new();
    assert_eq!(
        lease_outcome(&SessionLeaseError::HeldElsewhere { session_id: id }),
        Some(OpenOutcome::HeldElsewhere)
    );
    assert_eq!(
        lease_outcome(&SessionLeaseError::NotFound(id)),
        Some(OpenOutcome::Changed)
    );
    assert_eq!(
        mark_outcome(&SessionStoreError::NotFound(id)),
        Some(OpenOutcome::Changed)
    );
}

#[test]
fn unresolved_jobs_are_counted() {
    assert_eq!(report_unresolved(0), None);
    assert_eq!(
        report_unresolved(3).unwrap(),
        "3 job(s) remain unresolved after shutdown."
    );
}
