use bone_app::config::{EndpointConfig, Protocol};
use bone_app::profiles::{
    LlmProfile, LlmProfileError, LlmProfileId, LlmProfiles, LlmProfilesError, CHATGPT_PROFILE_ID,
};

fn endpoint(protocol: Protocol, base_url: Option<&str>) -> EndpointConfig {
    EndpointConfig {
        protocol,
        base_url: base_url.map(str::to_owned),
        valid: true,
    }
}

#[test]
fn profile_ids_are_stable_credential_safe_names() {
    for value in ["openai", "work-gateway-2", "a1"] {
        assert!(LlmProfileId::new(value).is_ok(), "{value}");
    }
    for value in [
        "",
        "OpenAI",
        "has_space",
        "-edge",
        "edge-",
        "two--hyphens",
        "default",
        "global",
        "coordinator",
        "inherit",
    ] {
        assert!(LlmProfileId::new(value).is_err(), "{value}");
    }
}

#[test]
fn persisted_profile_ids_are_validated_before_they_select_credentials() {
    assert!(LlmProfileId::new("Not-Safe").is_err());
}

#[test]
fn compatible_profiles_require_https_before_an_api_key_can_be_sent() {
    let profile = LlmProfile::new(
        LlmProfileId::new("local").unwrap(),
        "Local",
        endpoint(Protocol::OpenAiResponses, Some("http://127.0.0.1:8080/v1")),
    );
    assert_eq!(profile.unwrap_err(), LlmProfileError::InsecureBaseUrl);
}

#[test]
fn a_connection_is_added_only_under_a_new_name() {
    let mut profiles = LlmProfiles::default();
    let work = || {
        LlmProfile::new(
            LlmProfileId::new("work").unwrap(),
            "Work",
            endpoint(Protocol::OpenAiResponses, None),
        )
        .unwrap()
    };
    profiles.add_profile(work()).unwrap();
    assert_eq!(profiles.profiles.len(), 2);
    let error = profiles.add_profile(work()).unwrap_err();
    assert_eq!(error.message(), "a profile named `work` already exists");
    let mut broken = work();
    broken.label = String::new();
    assert_eq!(
        profiles.add_profile(broken).unwrap_err(),
        LlmProfilesError::Profile(LlmProfileError::InvalidLabel)
    );
    assert_eq!(profiles.profiles.len(), 2);
}

#[test]
fn app_has_one_unambiguous_chatgpt_subscription_profile() {
    let alias = LlmProfile::new(
        LlmProfileId::new("personal-chatgpt").unwrap(),
        "Personal ChatGPT",
        endpoint(Protocol::ChatGptSubscription, None),
    );
    assert_eq!(alias.unwrap_err(), LlmProfileError::ChatGptProfileId);
}

#[test]
fn defaults_seed_the_legacy_chatgpt_profile_once() {
    let profiles = LlmProfiles::default();
    assert_eq!(profiles.profiles.len(), 1);
    assert_eq!(profiles.profiles[0].id.as_str(), CHATGPT_PROFILE_ID);
    assert_eq!(
        profiles.profiles[0].endpoint,
        endpoint(Protocol::ChatGptSubscription, None)
    );
    profiles.validate().unwrap();
}

#[test]
fn https_base_urls_are_accepted() {
    let profile = LlmProfile::new(
        LlmProfileId::new("gateway").unwrap(),
        "Gateway",
        endpoint(Protocol::AnthropicMessages, Some("https://gateway.example/v1")),
    )
    .unwrap();
    assert!(profile.validate().is_ok());
    let none = LlmProfile::new(
        LlmProfileId::new("gateway").unwrap(),
        "Gateway",
        endpoint(Protocol::AnthropicMessages, Some("not a url")),
    );
    assert!(none.is_err());
}

#[test]
fn labels_and_refused_endpoints_are_reported() {
    let blank = LlmProfile::new(
        LlmProfileId::new("gateway").unwrap(),
        " ",
        endpoint(Protocol::OpenAiResponses, None),
    );
    assert_eq!(blank.unwrap_err(), LlmProfileError::InvalidLabel);
    let refused = LlmProfile::new(
        LlmProfileId::new("gateway").unwrap(),
        "Gateway",
        EndpointConfig {
            protocol: Protocol::OpenAiResponses,
            base_url: None,
            valid: false,
        },
    );
    assert_eq!(refused.unwrap_err(), LlmProfileError::Endpoint);
}

#[test]
fn two_connections_with_one_name_are_refused() {
    let make = || {
        LlmProfile::new(
            LlmProfileId::new("gateway").unwrap(),
            "Gateway",
            endpoint(Protocol::OpenAiResponses, None),
        )
        .unwrap()
    };
    let profiles = LlmProfiles {
        profiles: vec![make(), make()],
    };
    assert!(matches!(
        profiles.validate(),
        Err(LlmProfilesError::DuplicateId(id)) if id.as_str() == "gateway"
    ));
    assert!(profiles.get(&LlmProfileId::new("gateway").unwrap()).is_some());
    assert!(profiles.get(&LlmProfileId::new("other").unwrap()).is_none());
}
