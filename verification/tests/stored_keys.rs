use bone_app::config::{EndpointConfig, Profile, ProfileId, Protocol};
use bone_app::credentials::{
    endpoint_fingerprint, ApiKey, ApiKeyCredentialError, ApiKeyCredentials, ChatGptCredentials,
    CredentialContent, CredentialFile, CredentialRecord,
};
use bone_app::path::FilePath;
use bone_app::safe_file::{EntryFacts, EntryKind};

fn endpoint(base_url: Option<&str>) -> EndpointConfig {
    EndpointConfig {
        protocol: Protocol::OpenAiResponses,
        base_url: base_url.map(str::to_owned),
        valid: true,
    }
}

fn named(id: &str, endpoint: EndpointConfig) -> Profile {
    Profile::new(ProfileId::new(id).unwrap(), "Test", endpoint).unwrap()
}

fn profile(endpoint: EndpointConfig) -> Profile {
    named("test", endpoint)
}

fn home() -> FilePath {
    FilePath::from_text("/home/user/.bone")
}

fn copy(file: &CredentialFile) -> CredentialContent {
    CredentialContent::File(CredentialFile {
        schema_version: file.schema_version,
        api_keys: file
            .api_keys
            .iter()
            .map(|record| CredentialRecord {
                profile_id: record.profile_id.clone(),
                endpoint_fingerprint: record.endpoint_fingerprint.clone(),
                api_key: record.api_key.clone(),
            })
            .collect(),
    })
}

#[test]
fn saves_reads_clears_and_binds_endpoint() {
    let official = profile(endpoint(None));
    let saved = ApiKeyCredentials::for_profile(&home(), &official).unwrap();
    let file = saved
        .save(
            CredentialContent::Absent,
            &ApiKey::new("secret".into()).unwrap(),
        )
        .ok()
        .unwrap();
    assert_eq!(saved.read(copy(&file)).ok().unwrap().as_str(), "secret");
    let redirected = profile(endpoint(Some("https://example.test/v1")));
    assert!(matches!(
        ApiKeyCredentials::for_profile(&home(), &redirected)
            .unwrap()
            .read(copy(&file)),
        Err(ApiKeyCredentialError::EndpointMismatch)
    ));
    let cleared = saved.clear(copy(&file)).ok().unwrap().unwrap();
    assert!(matches!(
        saved.read(copy(&cleared)),
        Err(ApiKeyCredentialError::MissingApiKey)
    ));
}

#[test]
fn endpoint_fingerprint_normalizes_scheme_authority_and_trailing_slash() {
    let first = profile(endpoint(Some("https://EXAMPLE.test:443/a/../v1/")));
    let second = profile(endpoint(Some("HTTPS://example.test/v1")));
    let first = endpoint_fingerprint(&first.endpoint).unwrap();
    assert_eq!(first, endpoint_fingerprint(&second.endpoint).unwrap());
    assert_eq!(first.len(), 64);
    let other = profile(endpoint(Some("https://example.test/v2")));
    assert_ne!(first, endpoint_fingerprint(&other.endpoint).unwrap());
}

#[test]
fn rejects_symbolic_links_and_group_readable_credential_files() {
    let credentials =
        ApiKeyCredentials::for_profile(&home(), &profile(endpoint(None))).unwrap();
    let empty = || {
        Some(CredentialFile {
            schema_version: 1,
            api_keys: vec![],
        })
    };
    let private = EntryFacts {
        kind: EntryKind::File,
        owner: 1000,
        links: 1,
        mode: 0o100600,
    };
    let link = EntryFacts {
        kind: EntryKind::Symlink,
        ..private
    };
    assert!(matches!(
        credentials.read(CredentialContent::found(Some(link), 1000, empty())),
        Err(ApiKeyCredentialError::Unavailable)
    ));
    let readable_by_group = EntryFacts {
        mode: 0o100640,
        ..private
    };
    assert!(matches!(
        credentials.read(CredentialContent::found(
            Some(readable_by_group),
            1000,
            empty()
        )),
        Err(ApiKeyCredentialError::Unavailable)
    ));
    assert!(matches!(
        credentials.read(CredentialContent::found(Some(private), 1000, empty())),
        Err(ApiKeyCredentialError::MissingApiKey)
    ));
}

#[test]
fn the_end_of_a_path_and_the_case_of_a_host_do_not_matter() {
    let fingerprint = |url: &str| endpoint_fingerprint(&endpoint(Some(url))).unwrap();
    let plain = fingerprint("https://example.com/v1");
    assert_eq!(fingerprint("https://example.com/v1///"), plain);
    assert_eq!(fingerprint("https://EXAMPLE.com/./v1/"), plain);
    assert_ne!(fingerprint("https://example.com/v2"), plain);
    assert_ne!(fingerprint("https://example.com/v1?a=b"), plain);
    assert_eq!(
        fingerprint("https://example.com"),
        fingerprint("https://example.com///")
    );
    assert_eq!(
        fingerprint("https://example.com/a%20b/?q#f"),
        fingerprint("https://example.com/a b?q#f")
    );
    assert!(endpoint_fingerprint(&endpoint(Some("not a url"))).is_err());
}

#[test]
fn rejects_duplicate_records_without_exposing_their_secret() {
    let profile = profile(endpoint(None));
    let credentials = ApiKeyCredentials::for_profile(&home(), &profile).unwrap();
    let fingerprint = endpoint_fingerprint(&profile.endpoint).unwrap();
    let record = |key: &str| CredentialRecord {
        profile_id: "test".into(),
        endpoint_fingerprint: fingerprint.clone(),
        api_key: key.into(),
    };
    let error = credentials
        .read(CredentialContent::File(CredentialFile {
            schema_version: 1,
            api_keys: vec![record("do-not-print"), record("also-secret")],
        }))
        .err()
        .unwrap();
    assert_eq!(error, ApiKeyCredentialError::Unavailable);
    let diagnostic = format!("{error:?} {}", error.message());
    assert!(!diagnostic.contains("do-not-print"));
    assert!(!diagnostic.contains("also-secret"));
}

#[test]
fn concurrent_profile_writes_merge_under_the_file_lock() {
    let mut content = CredentialContent::Absent;
    for index in 0..8 {
        let profile = named(&format!("test-{index}"), endpoint(None));
        let file = ApiKeyCredentials::for_profile(&home(), &profile)
            .unwrap()
            .save(content, &ApiKey::new(format!("secret-{index}")).unwrap())
            .ok()
            .unwrap();
        content = CredentialContent::File(file);
    }
    let file = match content {
        CredentialContent::File(file) => file,
        _ => panic!("keys were saved"),
    };
    for index in 0..8 {
        let profile = named(&format!("test-{index}"), endpoint(None));
        assert_eq!(
            ApiKeyCredentials::for_profile(&home(), &profile)
                .unwrap()
                .read(copy(&file))
                .ok()
                .unwrap()
                .as_str(),
            format!("secret-{index}")
        );
    }
}

#[test]
fn blank_keys_and_relative_homes_are_refused() {
    assert_eq!(
        ApiKey::new("  ".into()).err(),
        Some(ApiKeyCredentialError::InvalidApiKey)
    );
    assert_eq!(
        ApiKeyCredentials::for_profile(
            &FilePath::from_text("relative"),
            &profile(endpoint(None))
        )
        .err(),
        Some(ApiKeyCredentialError::Unavailable)
    );
}

#[test]
fn saving_twice_replaces_the_key() {
    let credentials =
        ApiKeyCredentials::for_profile(&home(), &profile(endpoint(None))).unwrap();
    let first = credentials
        .save(CredentialContent::Absent, &ApiKey::new("one".into()).unwrap())
        .ok()
        .unwrap();
    let second = credentials
        .save(copy(&first), &ApiKey::new("two".into()).unwrap())
        .ok()
        .unwrap();
    assert_eq!(second.api_keys.len(), 1);
    assert_eq!(credentials.read(copy(&second)).ok().unwrap().as_str(), "two");
    assert!(credentials.clear(CredentialContent::Absent).ok().unwrap().is_none());
}

#[test]
fn the_subscription_cache_stands_below_the_config_root() {
    let credentials = ChatGptCredentials::at(FilePath::from_text("/home/user/.bone")).unwrap();
    let directories = credentials.directories();
    assert_eq!(directories.len(), 3);
    assert_eq!(directories[0], FilePath::from_text("/home/user/.bone"));
    assert!(credentials.auth_file(true).is_ok());
    assert!(credentials.auth_file(false).is_err());
    assert!(ChatGptCredentials::at(FilePath::from_text("relative")).is_err());
}
