use bone_app::ids::{SessionId, WorkspaceId};
use bone_app::settings::{
    model_apply_state, public_settings, ApplyState, EffectiveRevision, Effort, ModelOverrides,
    ModelResolution, ModelSelection, ModelSelectionError, ModelWrite, ResolvedModel, Retry,
    RetryStep, Scope, SettingKey, SettingSource, SettingsDocument, SettingsError, TurnConfig,
};

fn model(value: &str) -> ModelSelection {
    ModelSelection::new(value.to_string(), Some(Effort::Medium), Some(90)).unwrap()
}

fn revision(value: &str) -> EffectiveRevision {
    EffectiveRevision::new(value).unwrap()
}

#[test]
fn public_descriptors_have_real_unique_keys_and_valid_default_scopes() {
    let mut seen = std::collections::BTreeSet::new();
    for descriptor in public_settings() {
        assert!(SettingKey::new(descriptor.key).is_ok());
        assert!(seen.insert(descriptor.key));
        assert!(descriptor.allowed_scopes.contains(&descriptor.default_scope));
    }
}

#[test]
fn model_resolution_follows_session_workspace_user_builtin_order() {
    let workspace = WorkspaceId::new();
    let session = SessionId::new();
    let mut overrides = ModelOverrides::default();
    let built_in = model("built-in");
    assert_eq!(
        overrides.resolve(workspace, session, &built_in).source,
        SettingSource::BuiltIn
    );

    overrides.set(Scope::User, model("user"));
    assert_eq!(
        overrides.resolve(workspace, session, &built_in),
        ResolvedModel {
            selection: model("user"),
            source: SettingSource::User,
        }
    );

    overrides.set(Scope::Workspace(workspace), model("workspace"));
    assert_eq!(
        overrides.resolve(workspace, session, &built_in).source,
        SettingSource::Workspace
    );

    overrides.set(Scope::Session(session), model("session"));
    assert_eq!(
        overrides.resolve(workspace, session, &built_in).selection,
        model("session")
    );
}

#[test]
fn inherit_removes_only_the_session_override() {
    let workspace = WorkspaceId::new();
    let session = SessionId::new();
    let mut overrides = ModelOverrides::default();
    let built_in = model("built-in");
    overrides.set(Scope::Workspace(workspace), model("workspace"));
    overrides.set(Scope::Session(session), model("session"));

    assert!(overrides.inherit_session(session));
    assert_eq!(
        overrides.resolve(workspace, session, &built_in).selection,
        model("workspace")
    );
    assert!(!overrides.inherit_session(session));
}

#[test]
fn changing_model_in_running_turn_is_pending_next_turn() {
    let current = TurnConfig::new(
        revision("effective-a"),
        model("solver-a"),
        model("coordinator-a"),
        1,
        1,
    )
    .unwrap();

    assert_eq!(
        model_apply_state(revision("effective-b"), Some(&current)),
        ApplyState::PendingNextTurn {
            desired_revision: revision("effective-b"),
            current_turn_revision: revision("effective-a"),
        }
    );
    assert_eq!(
        model_apply_state(revision("effective-b"), None),
        ApplyState::Applied {
            effective_revision: revision("effective-b"),
        }
    );
}

#[test]
fn rejects_invalid_model_and_turn_values() {
    assert_eq!(
        ModelSelection::new(" ".to_string(), None, None),
        Err(ModelSelectionError::InvalidModel)
    );
    assert_eq!(
        ModelSelection::new("model".to_string(), None, Some(0)),
        Err(ModelSelectionError::ZeroTimeout)
    );
    assert!(TurnConfig::new(revision("r"), model("a"), model("b"), 0, 1).is_err());
}

#[test]
fn settings_service_creates_a_safe_document_but_never_guesses_a_model() {
    let document = SettingsDocument::initial();
    let workspace = WorkspaceId::new();
    let session = SessionId::new();
    assert!(matches!(
        document
            .resolve_model(&revision("first"), workspace, session)
            .unwrap(),
        ModelResolution::NeedsModel { .. }
    ));
    assert!(document.display.show_progress);
    assert!(document.overrides.validate().is_ok());
}

#[test]
fn first_session_model_creates_agent_baseline_and_persists_scope() {
    let mut document = SettingsDocument::initial();
    let workspace = WorkspaceId::new();
    let session = SessionId::new();
    let desired = model("session-solver");
    let change = document
        .set_solver_model(
            workspace,
            session,
            Scope::Session(session),
            model("session-solver"),
            revision("after"),
        )
        .unwrap();
    assert_eq!(change.scope, Scope::Session(session));
    assert_eq!(change.resolved.selection, desired);
    assert_eq!(change.resolved.source, SettingSource::Session);
    assert_eq!(change.desired_revision, revision("after"));
    let resolution = document
        .resolve_model(&revision("after"), workspace, session)
        .unwrap();
    let task = resolution.task_config().unwrap();
    match resolution {
        ModelResolution::Ready { resolved, .. } => {
            assert_eq!(resolved.selection, desired);
            assert_eq!(resolved.source, SettingSource::Session);
        }
        ModelResolution::NeedsModel { .. } => panic!("a model was chosen"),
    }
    let system = document.system.as_ref().unwrap();
    assert_eq!(system.default_solver.model, "session-solver");
    assert_eq!(system.coordinator.model, "session-solver");
    assert_eq!(task.model.as_deref(), Some("session-solver"));
}

#[test]
fn persisted_scopes_resolve_in_order_and_inherit_is_session_local() {
    let mut document = SettingsDocument::initial();
    let workspace = WorkspaceId::new();
    let session = SessionId::new();
    document
        .set_solver_model(workspace, session, Scope::User, model("user"), revision("now"))
        .unwrap();
    document
        .set_solver_model(
            workspace,
            session,
            Scope::Workspace(workspace),
            model("workspace"),
            revision("now"),
        )
        .unwrap();
    document
        .set_solver_model(
            workspace,
            session,
            Scope::Session(session),
            model("session"),
            revision("now"),
        )
        .unwrap();
    assert_eq!(
        document
            .resolve_model(&revision("now"), workspace, session)
            .unwrap(),
        ModelResolution::Ready {
            resolved: ResolvedModel {
                selection: model("session"),
                source: SettingSource::Session,
            },
            effective_revision: revision("now"),
        }
    );

    let (removed, resolution) =
        document.inherit_session_model(workspace, session, &revision("now"));
    assert!(removed);
    match resolution.unwrap() {
        ModelResolution::Ready { resolved, .. } => {
            assert_eq!(resolved.selection, model("workspace"));
            assert_eq!(resolved.source, SettingSource::Workspace);
        }
        ModelResolution::NeedsModel { .. } => {
            panic!("a configured workspace must resolve a model")
        }
    }
}

#[test]
fn rejects_scope_ids_that_do_not_belong_to_the_open_session() {
    let mut document = SettingsDocument::initial();
    let workspace = WorkspaceId::new();
    let session = SessionId::new();
    let error = document
        .set_solver_model(
            workspace,
            session,
            Scope::Session(SessionId::new()),
            model("not-current"),
            revision("now"),
        )
        .unwrap_err();
    assert!(matches!(error, SettingsError::ScopeTargetMismatch { .. }));
}

#[test]
fn display_setting_is_saved_with_an_immediate_revision() {
    let mut document = SettingsDocument::initial();
    assert!(document.display.show_progress);
    assert_eq!(
        document.set_show_progress(false, revision("saved")),
        revision("saved")
    );
    assert!(!document.display.show_progress);
}

#[test]
fn the_agent_baseline_is_written_before_the_choice() {
    let document = SettingsDocument::initial();
    let workspace = WorkspaceId::new();
    let session = SessionId::new();
    let write = document
        .plan_solver_model(
            workspace,
            session,
            Scope::Session(session),
            &model("solver"),
        )
        .unwrap();
    assert!(matches!(write, ModelWrite::System(_)));
}

#[test]
fn a_contended_change_gives_up_after_some_tries() {
    let mut retry = Retry::start();
    let mut steps = 0;
    loop {
        match retry.after_try(false, true) {
            RetryStep::Again => steps += 1,
            RetryStep::Contention => break,
            RetryStep::Done => panic!("nothing was written"),
        }
        assert!(steps < 100);
    }
    assert_eq!(Retry::start().after_try(true, true), RetryStep::Done);
}

#[test]
fn revisions_and_keys_are_checked() {
    assert!(EffectiveRevision::new("").is_err());
    assert_eq!(revision("abc").as_str(), "abc");
    assert!(SettingKey::new("").is_err());
}
