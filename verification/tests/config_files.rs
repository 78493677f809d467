use bone_app::api::WorkspaceInfo;
use bone_app::config::{
    AgentLimits, ConfigChange, EndpointConfig, Profile, ProfileId, Protocol, RuntimeOverrides,
    ToolLimits,
};
use bone_app::error::StoreError;
use bone_app::file_config::{
    inspect_project_directory, project_path, resolved_project_path, AdapterDefaults, FileConfigs,
    FileContent, FoundEntry, ProjectConfig, ProjectStep, UserConfig,
};
use bone_app::ids::WorkspaceId;
use bone_app::path::FilePath;

fn defaults() -> AdapterDefaults {
    AdapterDefaults {
        limits: AgentLimits {
            context_bytes: 262_144,
            item_bytes: 65_536,
            tool_output_bytes: 65_536,
            tool_timeout: 60_000_000_000,
            encoded: String::new(),
            valid: true,
        },
        tools: tools(),
    }
}

fn tools() -> ToolLimits {
    ToolLimits {
        max_output_bytes: 65_536,
        max_patch_bytes: 65_536,
        max_bash_timeout: 120_000_000_000,
        encoded: String::new(),
        valid: true,
    }
}

fn home() -> FilePath {
    FilePath::from_text("/home/user/.bone")
}

fn open(content: FileContent<UserConfig>) -> FileConfigs {
    FileConfigs::open(home(), content, defaults()).unwrap()
}

fn profile(id: &str, label: &str, base_url: Option<&str>) -> Profile {
    Profile::new(
        ProfileId::new(id).unwrap(),
        label,
        EndpointConfig {
            protocol: Protocol::OpenAiResponses,
            base_url: base_url.map(str::to_owned),
            valid: true,
        },
    )
    .unwrap()
}

fn no_overrides() -> RuntimeOverrides {
    RuntimeOverrides {
        worker: None,
        coordinator: None,
        limits: None,
        tools: None,
    }
}

fn workspace() -> WorkspaceInfo {
    WorkspaceInfo {
        id: WorkspaceId::new(),
        root: FilePath::from_text("/work/project"),
    }
}

#[test]
fn user_file_detects_external_edits_instead_of_overwriting_them() {
    let mut configs = open(FileContent::Absent);
    let next = configs
        .update(ConfigChange::Tools(Some(tools())), defaults(), &None)
        .unwrap();
    configs.publish_user(next, b"first");
    assert!(matches!(
        configs.update(
            ConfigChange::Tools(None),
            defaults(),
            &Some(b"schema_version = 1\n".to_vec())
        ),
        Err(StoreError::ConfigConflict { .. })
    ));
}

#[test]
fn separate_app_instances_cannot_overwrite_a_stale_user_snapshot() {
    let mut first = open(FileContent::Absent);
    let second = open(FileContent::Absent);
    let next = first
        .update(ConfigChange::Tools(Some(tools())), defaults(), &None)
        .unwrap();
    first.publish_user(next, b"written by the first");
    assert!(matches!(
        second.update(
            ConfigChange::Tools(None),
            defaults(),
            &Some(b"written by the first".to_vec())
        ),
        Err(StoreError::ConfigConflict { .. })
    ));
}

#[test]
fn new_user_config_has_no_implicit_profiles() {
    assert!(open(FileContent::Absent).profiles().is_empty());
}

#[test]
fn profile_models_are_persisted_with_the_profile() {
    let mut configs = open(FileContent::Absent);
    let mut profile = profile("local", "Local", Some("http://127.0.0.1:8080/v1"));
    profile.add_model("qwen").unwrap();
    profile.add_model("deepseek").unwrap();
    let next = configs.save_profile(profile.copy(), &None).unwrap();
    let written = next.copy();
    configs.publish_user(next, b"bytes");

    let reloaded = open(FileContent::Read {
        bytes: b"bytes".to_vec(),
        value: written,
    });
    assert_eq!(
        reloaded
            .profiles()
            .into_iter()
            .find(|item| item.id == profile.id),
        Some(profile)
    );
}

#[test]
fn delete_profile_rewrites_the_file_and_keeps_the_remaining_order() {
    let mut configs = open(FileContent::Absent);
    let mut bytes: Option<Vec<u8>> = None;
    for (step, profile) in [
        profile("first", "First", None),
        profile("second", "Second", None),
        Profile::chatgpt(),
    ]
    .into_iter()
    .enumerate()
    {
        let next = configs.save_profile(profile, &bytes).unwrap();
        let written = vec![step as u8];
        configs.publish_user(next, &written);
        bytes = Some(written);
    }
    let next = configs
        .delete_profile(&ProfileId::new("second").unwrap(), &bytes)
        .unwrap()
        .unwrap();
    configs.publish_user(next, b"after");
    let ids: Vec<String> = configs
        .profiles()
        .iter()
        .map(|profile| profile.id.as_str().to_owned())
        .collect();
    assert_eq!(ids, ["first", "chatgpt"]);
}

#[test]
fn delete_profile_is_idempotent_for_an_unsaved_id() {
    let mut configs = open(FileContent::Absent);
    let next = configs
        .save_profile(profile("saved", "Saved", None), &None)
        .unwrap();
    configs.publish_user(next, b"saved");
    let current = Some(b"saved".to_vec());
    let missing = ProfileId::new("missing").unwrap();
    assert!(configs.delete_profile(&missing, &current).unwrap().is_none());
    assert!(configs.delete_profile(&missing, &current).unwrap().is_none());
    assert_eq!(configs.profiles(), vec![profile("saved", "Saved", None)]);
}

#[test]
fn deleting_an_unsaved_profile_does_not_create_the_config_file() {
    let configs = open(FileContent::Absent);
    assert!(configs
        .delete_profile(&ProfileId::new("missing").unwrap(), &None)
        .unwrap()
        .is_none());
}

#[test]
fn rejects_project_bone_directory_symlinks() {
    let workspace = workspace();
    match inspect_project_directory(&workspace.root, FoundEntry::Other, false) {
        ProjectStep::Refuse { directory, reason } => {
            assert_eq!(directory, FilePath::from_text("/work/project/.bone"));
            assert_eq!(reason, "project .bone must be a real directory");
        }
        _ => panic!("a link is no directory"),
    }
}

#[test]
fn project_file_is_loaded_immediately() {
    let workspace = workspace();
    let mut configs = open(FileContent::Absent);
    let status = configs
        .load_workspace(
            &workspace,
            project_path(&workspace.root),
            FileContent::Read {
                bytes: b"schema_version = 1\n[overrides]\n".to_vec(),
                value: ProjectConfig::initial(),
            },
        )
        .unwrap();
    assert!(status.exists);
    assert_eq!(configs.overrides(workspace.id), no_overrides());
}

#[test]
fn project_write_updates_the_loaded_snapshot() {
    let workspace = workspace();
    let mut configs = open(FileContent::Absent);
    let path = project_path(&workspace.root);
    configs
        .load_workspace(&workspace, path.copy(), FileContent::Absent)
        .unwrap();
    let expected = RuntimeOverrides {
        tools: Some(tools()),
        ..no_overrides()
    };
    let next = configs
        .update_workspace(
            workspace.id,
            ConfigChange::Tools(Some(tools())),
            path,
            &None,
        )
        .unwrap();
    let updated = configs.publish_workspace(workspace.id, next, b"written");
    assert_eq!(updated, expected);
    assert_eq!(configs.overrides(workspace.id), expected);
}

#[test]
fn project_write_rejects_external_changes() {
    let workspace = workspace();
    let mut configs = open(FileContent::Absent);
    let path = project_path(&workspace.root);
    configs
        .load_workspace(
            &workspace,
            path.copy(),
            FileContent::Read {
                bytes: b"schema_version = 1\n[overrides]\n".to_vec(),
                value: ProjectConfig::initial(),
            },
        )
        .unwrap();
    assert!(matches!(
        configs.update_workspace(
            workspace.id,
            ConfigChange::Tools(None),
            path,
            &Some(b"schema_version = 1\n[overrides.worker]\nprofile = \"chatgpt\"\nmodel = \"changed\"\n".to_vec())
        ),
        Err(StoreError::ConfigConflict { .. })
    ));
}

#[test]
fn rejects_unknown_and_future_schema_fields() {
    assert!(FileConfigs::open(
        home(),
        FileContent::Invalid {
            path: "/home/user/.bone/config.toml".into(),
            error: "unknown field `unknown`".into()
        },
        defaults()
    )
    .is_err());
    let mut future = UserConfig::initial(defaults());
    future.schema_version = 2;
    assert!(matches!(
        FileConfigs::open(
            home(),
            FileContent::Read {
                bytes: b"schema_version = 2\n".to_vec(),
                value: future
            },
            defaults()
        ),
        Err(StoreError::ConfigVersion { actual: 2, .. })
    ));
}

#[test]
fn combined_reload_publishes_neither_file_when_one_is_invalid() {
    let workspace = workspace();
    let mut configs = open(FileContent::Absent);
    let next = configs
        .update(ConfigChange::Tools(Some(tools())), defaults(), &None)
        .unwrap();
    configs.publish_user(next, b"first");
    let path = project_path(&workspace.root);
    configs
        .load_workspace(&workspace, path.copy(), FileContent::Absent)
        .unwrap();
    let mut edited = UserConfig::initial(defaults());
    edited.settings.tools.max_bash_timeout = 300_000_000_000;
    edited.settings.limits.tool_timeout = 301_000_000_000;
    let mut future = ProjectConfig::initial();
    future.schema_version = 999;
    assert!(configs
        .reload_all(
            FileContent::Read {
                bytes: b"edited".to_vec(),
                value: edited
            },
            defaults(),
            &workspace,
            path,
            FileContent::Read {
                bytes: b"schema_version = 999\n".to_vec(),
                value: future
            },
        )
        .is_err());
    assert_eq!(configs.user_settings().tools, tools());
}

#[test]
fn failed_project_write_does_not_change_the_loaded_snapshot() {
    let workspace = workspace();
    let mut configs = open(FileContent::Absent);
    let path = project_path(&workspace.root);
    configs
        .load_workspace(&workspace, path.copy(), FileContent::Absent)
        .unwrap();
    // The next document is made, and never published.
    configs
        .update_workspace(
            workspace.id,
            ConfigChange::Tools(Some(tools())),
            path,
            &None,
        )
        .unwrap();
    assert_eq!(configs.overrides(workspace.id), no_overrides());
}

#[test]
fn a_project_directory_must_stay_in_its_workspace() {
    let root = FilePath::from_text("/work/project");
    assert_eq!(
        resolved_project_path(&root, &FilePath::from_text("/work/project/.bone")).unwrap(),
        FilePath::from_text("/work/project/.bone/config.toml")
    );
    assert!(matches!(
        resolved_project_path(&root, &FilePath::from_text("/elsewhere/.bone")),
        Err(StoreError::UnsafeStorage { reason, .. })
            if reason == "project .bone escapes the workspace root"
    ));
    assert!(matches!(
        inspect_project_directory(&root, FoundEntry::Missing, false),
        ProjectStep::Absent { .. }
    ));
    assert!(matches!(
        inspect_project_directory(&root, FoundEntry::Missing, true),
        ProjectStep::Create { .. }
    ));
    assert!(matches!(
        inspect_project_directory(&root, FoundEntry::Directory, false),
        ProjectStep::Resolve { .. }
    ));
}

#[test]
fn a_relative_home_is_refused() {
    assert!(matches!(
        FileConfigs::open(
            FilePath::from_text("relative"),
            FileContent::Absent,
            defaults()
        ),
        Err(StoreError::RelativeRoot { .. })
    ));
    assert!(matches!(
        FileConfigs::open(
            home(),
            FileContent::NotUtf8 {
                path: "/home/user/.bone/config.toml".into()
            },
            defaults()
        ),
        Err(StoreError::ConfigFile { .. })
    ));
}

#[test]
fn the_user_file_is_taken_up_again_as_it_stands() {
    let mut configs = open(FileContent::Absent);
    let mut edited = UserConfig::initial(defaults());
    edited.settings.tools.max_output_bytes = 1_024;
    configs
        .reload_user(
            FileContent::Read {
                bytes: b"edited".to_vec(),
                value: edited,
            },
            defaults(),
        )
        .unwrap();
    assert_eq!(configs.user_settings().tools.max_output_bytes, 1_024);
    match configs.reload_user(
        FileContent::NotUtf8 {
            path: "/home/user/.bone/config.toml".into(),
        },
        defaults(),
    ) {
        Err(error) => assert_eq!(
            error.message(),
            "/home/user/.bone/config.toml is not UTF-8"
        ),
        Ok(()) => panic!("a file that is not text was taken up"),
    }
    assert_eq!(configs.user_settings().tools.max_output_bytes, 1_024);
}

#[test]
fn the_status_of_a_project_says_whether_its_file_exists() {
    let workspace = workspace();
    let mut configs = open(FileContent::Absent);
    assert!(configs.project_status(workspace.id).is_none());
    configs
        .load_workspace(
            &workspace,
            project_path(&workspace.root),
            FileContent::Absent,
        )
        .unwrap();
    let status = configs.project_status(workspace.id).unwrap();
    assert!(!status.exists);
    assert_eq!(
        status.path,
        FilePath::from_text("/work/project/.bone/config.toml")
    );
    assert_eq!(status.overrides, no_overrides());
}
