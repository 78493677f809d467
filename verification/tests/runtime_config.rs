use bone_app::config::{
    resolve_model, resolve_runtime, validate_model_id, validate_runtime, AgentLimits, ConfigError,
    ConfigProblem, EndpointConfig, ModelOptions, ModelSelection, Profile, ProfileId, Protocol,
    RuntimeConfig, RuntimeOverrides, RuntimeSettings, ToolLimits, MAX_PERSISTED_VALUE_BYTES,
    MAX_TOOL_STREAM_BYTES,
};
use bone_app::path::FilePath;

const SECOND: u128 = 1_000_000_000;

fn agent_limits() -> AgentLimits {
    AgentLimits {
        context_bytes: 262_144,
        item_bytes: 65_536,
        tool_output_bytes: 65_536,
        tool_timeout: 60 * SECOND,
        encoded: String::new(),
        valid: true,
    }
}

fn tool_limits() -> ToolLimits {
    ToolLimits {
        max_output_bytes: 65_536,
        max_patch_bytes: 65_536,
        max_bash_timeout: 120 * SECOND,
        encoded: String::new(),
        valid: true,
    }
}

fn model(name: &str) -> ModelSelection {
    ModelSelection::new(ProfileId::new("test").unwrap(), name).unwrap()
}

fn endpoint(base_url: Option<&str>) -> EndpointConfig {
    EndpointConfig {
        protocol: Protocol::OpenAiResponses,
        base_url: base_url.map(str::to_owned),
        valid: true,
    }
}

fn profile() -> Profile {
    Profile::new(ProfileId::new("test").unwrap(), "Test", endpoint(None)).unwrap()
}

fn defaults() -> RuntimeSettings {
    RuntimeSettings::defaults(agent_limits(), tool_limits())
}

fn settings() -> RuntimeSettings {
    RuntimeSettings {
        worker: Some(model("user-worker")),
        coordinator: None,
        limits: defaults().limits,
        tools: tool_limits(),
    }
}

fn no_overrides() -> RuntimeOverrides {
    RuntimeOverrides {
        worker: None,
        coordinator: None,
        limits: None,
        tools: None,
    }
}

fn root() -> FilePath {
    FilePath::from_text("/tmp/workspace")
}

#[test]
fn application_defaults_allow_bash_to_finish_before_the_outer_deadline() {
    let settings = settings();
    assert!(settings.limits.tool_timeout > settings.tools.max_bash_timeout);
    let mut limits = settings.limits;
    limits.tool_timeout = settings.tools.max_bash_timeout;
    let worker = settings.worker.unwrap();
    assert_eq!(
        validate_runtime(&worker, &worker, &limits, &settings.tools),
        Err(ConfigError::InvalidToolTimeout)
    );
}

#[test]
fn closest_scope_wins_and_coordinator_follows_worker() {
    let workspace = RuntimeOverrides {
        worker: Some(model("workspace-worker")),
        ..no_overrides()
    };
    let session = RuntimeOverrides {
        worker: Some(model("session-worker")),
        ..no_overrides()
    };
    let result = resolve_runtime(
        &settings(),
        Some(&workspace),
        Some(&session),
        &vec![profile()],
        root(),
    )
    .unwrap();
    assert_eq!(result.worker.selection.model, "session-worker");
    assert_eq!(result.coordinator.selection.model, "session-worker");
}

#[test]
fn missing_worker_is_a_normal_incomplete_configuration() {
    assert_eq!(
        resolve_runtime(&defaults(), None, None, &vec![Profile::chatgpt()], root()),
        Err(ConfigProblem::NeedsModel)
    );
}

#[test]
fn profile_id_validation_cannot_be_bypassed_by_deserialization() {
    assert!(ProfileId::new("valid-id").is_ok());
    assert!(ProfileId::new("INVALID").is_err());
}

#[test]
fn model_names_reject_terminal_control_characters() {
    let profile = ProfileId::new("test").unwrap();
    for name in ["gpt-5\nignore", "gpt-5\tignore", "gpt-5\u{1b}[31m"] {
        assert_eq!(
            ModelSelection::new(profile.clone(), name),
            Err(ConfigError::InvalidModel)
        );
    }
}

#[test]
fn profiles_accept_plain_http_for_compatible_endpoints() {
    let profile = Profile::new(
        ProfileId::new("insecure").unwrap(),
        "Insecure",
        endpoint(Some("http://127.0.0.1:8080/v1")),
    )
    .unwrap();
    assert_eq!(
        profile.endpoint.base_url.as_deref(),
        Some("http://127.0.0.1:8080/v1")
    );
}

#[test]
fn profile_model_catalog_supports_multiple_unique_models() {
    let mut profile = profile();
    assert!(!profile.has_model("qwen"));
    profile.add_model("qwen").unwrap();
    profile.add_model("deepseek").unwrap();
    assert_eq!(profile.models, ["qwen", "deepseek"]);
    assert!(profile.has_model("qwen"));
    assert_eq!(profile.add_model("qwen"), Err(ConfigError::InvalidModel));
    assert!(profile.remove_model("qwen"));
    assert!(!profile.has_model("qwen"));
    assert!(!profile.remove_model("qwen"));
}

#[test]
fn profile_model_catalog_uses_model_selection_validation() {
    let mut profile = profile();
    for model in ["", " model", "model ", "model\nignore"] {
        assert_eq!(profile.add_model(model), Err(ConfigError::InvalidModel));
    }
    profile.models.push("duplicate".into());
    profile.models.push("duplicate".into());
    assert_eq!(profile.validate(), Err(ConfigError::InvalidModel));
}

#[test]
fn bash_stream_limits_leave_room_for_json_escaping() {
    let mut oversized_stream = settings();
    oversized_stream.tools.max_output_bytes = MAX_TOOL_STREAM_BYTES + 1;
    let error = resolve_runtime(&oversized_stream, None, None, &vec![profile()], root())
        .unwrap_err();
    assert!(matches!(error, ConfigProblem::Invalid(_)));

    let mut settings = settings();
    settings.limits.context_bytes = MAX_PERSISTED_VALUE_BYTES + 1;
    assert!(matches!(
        resolve_runtime(&settings, None, None, &vec![profile()], root()),
        Err(ConfigProblem::Invalid(_))
    ));
}

#[test]
fn a_selection_of_an_unknown_profile_is_reported() {
    let selection = ModelSelection::new(ProfileId::new("other").unwrap(), "m").unwrap();
    match resolve_model(selection, &vec![profile()]) {
        Err(ConfigProblem::MissingProfile(id)) => assert_eq!(id.as_str(), "other"),
        _ => panic!("the profile is not saved"),
    }
}

#[test]
fn options_are_checked_against_the_protocol() {
    let mut selection = model("m");
    selection.options = Some(ModelOptions {
        encoded: "{}".into(),
        valid: true,
        chatgpt_complaint: None,
        responses_complaint: Some("no such option".into()),
        completions_complaint: None,
        messages_complaint: None,
    });
    match resolve_model(selection, &vec![profile()]) {
        Err(ConfigProblem::Invalid(message)) => assert_eq!(message, "no such option"),
        _ => panic!("the options do not fit"),
    }
}

#[test]
fn configurations_are_compared_in_every_part() {
    let make = |name: &str| -> RuntimeConfig {
        let mut settings = settings();
        settings.worker = Some(model(name));
        resolve_runtime(&settings, None, None, &vec![profile()], root()).unwrap()
    };
    assert!(make("a").same(&make("a")));
    assert!(!make("a").same(&make("b")));
    let mut other = make("a");
    other.worker.profile.models.push("x".into());
    assert!(!make("a").same(&other));
}

#[test]
fn names_of_models_are_bounded() {
    assert!(validate_model_id(&"m".repeat(256)).is_ok());
    assert_eq!(
        validate_model_id(&"m".repeat(257)),
        Err(ConfigError::InvalidModel)
    );
    assert!(!ConfigError::InvalidModel.message().is_empty());
}
