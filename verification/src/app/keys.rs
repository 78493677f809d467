//! How the application saves API keys.

use vstd::prelude::*;

use super::configuring::named_at;
use super::App;
use crate::config::{ConfigProblem, Profile, ProfileView};
use crate::credentials::{
    fingerprint_of, key_views, saved_keys, with_key, ApiKey, ApiKeyCredentials, CredentialContent,
    CredentialFile, CredentialRecordView, SCHEMA_VERSION,
};
use crate::error::{CredentialProblemKind, Error};
use crate::path::{absolute, FilePath};
use crate::providers::{provision_error, set_api_key, subscribed, ProviderConnectError};

verus! {

/// Whether saving a key for a profile has this outcome: the file of keys with it, or that the
/// credentials are not available.
pub open spec fn provisions(
    bone_home: Seq<u8>,
    profile: Profile,
    key: Seq<char>,
    content: CredentialContent,
    outcome: Result<CredentialFile, Error>,
) -> bool {
    if profile.problem() is Some || !absolute(bone_home) || fingerprint_of(profile.endpoint) is None
        || saved_keys(content) is None {
        outcome matches Err(Error::Credential(problem)) && problem.profile@ == profile.id@
            && problem.kind == CredentialProblemKind::Unavailable
    } else {
        &&& outcome matches Ok(file)
        &&& file.schema_version == SCHEMA_VERSION
        &&& key_views(file.api_keys@) == with_key(
            saved_keys(content)->0,
            CredentialRecordView {
                profile_id: profile.id@,
                endpoint_fingerprint: fingerprint_of(profile.endpoint)->0,
                api_key: key,
            },
        )
    }
}

/// Whether setting a key for a profile gives this answer.
pub open spec fn sets_key(
    app: App,
    bone_home: FilePath,
    expected: Profile,
    key: ApiKey,
    content: CredentialContent,
    r: Result<CredentialFile, Error>,
) -> bool {
    if app.closed {
        r matches Err(error) && error == Error::Closed
    } else {
        exists|profiles: Seq<ProfileView>| #[trigger]
            app.store@.offers(profiles) && ({
                ||| {
                    &&& forall|i: int|
                        0 <= i < profiles.len() ==> (#[trigger] profiles[i]).id@
                            != expected.id@
                    &&& r matches Err(error)
                    &&& error matches Error::Configuration(
                        ConfigProblem::MissingProfile(name),
                    )
                    &&& name@ == expected.id@
                }
                ||| exists|i: int, current: Profile|
                    {
                        &&& #[trigger] named_at(profiles, expected.id@, i)
                        &&& #[trigger] current@ == profiles[i]
                        &&& if !current.agrees(expected) {
                            r matches Err(error) && error.is_invalid(
                                "profile changed before credentials were saved"@,
                            )
                        } else if expected@.problem() is Some || subscribed(expected@) {
                            r matches Err(error) && (exists|id: crate::config::ProfileId|
                                id@ == expected.id@
                                    && #[trigger] ProviderConnectError::InvalidProfile(
                                    id,
                                ).becomes(error))
                        } else {
                            provisions(bone_home@, expected, key@, content, r)
                        }
                    }
            })
    }
}

impl App {
    /// The file of keys with a key saved for a profile, to be written in place of `content`. No
    /// store and no session is needed for it.
    pub fn provision_api_key(
        bone_home: &FilePath,
        profile: &Profile,
        key: &ApiKey,
        content: CredentialContent,
    ) -> (r: Result<CredentialFile, Error>)
        ensures
            provisions(bone_home@, *profile, key@, content, r),
    {
        let credentials = match ApiKeyCredentials::for_profile(bone_home, profile) {
            Ok(credentials) => credentials,
            Err(error) => {
                return Err(provision_error(profile.id.clone(), error));
            },
        };
        match credentials.save(content, key) {
            Ok(file) => Ok(file),
            Err(error) => Err(provision_error(profile.id.clone(), error)),
        }
    }

    /// The file of keys with a key saved for a profile that the caller has seen. The key goes to
    /// that profile and its endpoint: if the saved profile is another one by now, nothing is
    /// saved.
    pub fn set_api_key_for_profile(
        &self,
        bone_home: &FilePath,
        expected: &Profile,
        key: &ApiKey,
        content: CredentialContent,
    ) -> (r: Result<CredentialFile, Error>)
        ensures
            sets_key(*self, *bone_home, *expected, *key, content, r),
    {
        match self.expect_profile(expected) {
            Ok(()) => {},
            Err(error) => {
                return Err(error);
            },
        }
        match set_api_key(expected) {
            Ok(()) => {},
            Err(error) => {
                return Err(error.into_error());
            },
        }
        App::provision_api_key(bone_home, expected, key, content)
    }
}

} // verus!
