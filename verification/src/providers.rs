//! Connections to providers: what a runtime configuration needs before a model can be reached, and
//! how failures of credentials are reported.

use vstd::prelude::*;

use crate::config::{
    Profile, ProfileId, ProfileView, Protocol, ResolvedModel, RuntimeConfig, RuntimeConfigView,
};
use crate::credentials::{ApiKeyCredentialError, CredentialError};
use crate::error::{CredentialProblem, CredentialProblemKind, Error};

verus! {

/// Why a provider cannot be reached.
#[derive(Debug, PartialEq, Eq)]
pub enum ProviderConnectError {
    InvalidProfile(ProfileId),
    InvalidModel(ProfileId),
    InvalidModelOptions(ProfileId),
    LoginRequired(ProfileId),
    Credential(CredentialProblem),
    AuthorizationFailed(ProfileId),
}

/// Two parts of a message with the name of a profile between them.
fn about_profile(before: &str, profile: &ProfileId, after: &str) -> (r: Error)
    ensures
        r matches Error::Provider(message) && message@ == before@ + profile@ + after@,
{
    let mut message = before.to_owned();
    message.push_str(profile.as_str());
    message.push_str(after);
    Error::Provider(message)
}

impl ProviderConnectError {
    /// Whether the application reports this error as `shown`: a missing login and a credential
    /// problem by their kind, any other as a failure of the provider.
    pub open spec fn becomes(self, shown: Error) -> bool {
        match self {
            ProviderConnectError::LoginRequired(profile) => shown == Error::LoginRequired(profile),
            ProviderConnectError::Credential(problem) => shown == Error::Credential(problem),
            ProviderConnectError::InvalidProfile(profile) => shown matches Error::Provider(message)
                && message@ == "profile `"@ + profile@ + "` has invalid endpoint settings"@,
            ProviderConnectError::InvalidModel(profile) => shown matches Error::Provider(message)
                && message@ == "profile `"@ + profile@ + "` has an invalid model selection"@,
            ProviderConnectError::InvalidModelOptions(profile) => shown matches Error::Provider(
                message,
            ) && message@ == "profile `"@ + profile@ + "` has incompatible model options"@,
            ProviderConnectError::AuthorizationFailed(profile) => shown matches Error::Provider(
                message,
            ) && message@ == "authorization failed for profile `"@ + profile@ + "`"@,
        }
    }

    /// This error as one of the application.
    pub fn into_error(self) -> (r: Error)
        ensures
            self.becomes(r),
    {
        match self {
            ProviderConnectError::LoginRequired(profile) => Error::LoginRequired(profile),
            ProviderConnectError::Credential(problem) => Error::Credential(problem),
            ProviderConnectError::InvalidProfile(profile) => about_profile(
                "profile `",
                &profile,
                "` has invalid endpoint settings",
            ),
            ProviderConnectError::InvalidModel(profile) => about_profile(
                "profile `",
                &profile,
                "` has an invalid model selection",
            ),
            ProviderConnectError::InvalidModelOptions(profile) => about_profile(
                "profile `",
                &profile,
                "` has incompatible model options",
            ),
            ProviderConnectError::AuthorizationFailed(profile) => about_profile(
                "authorization failed for profile `",
                &profile,
                "`",
            ),
        }
    }
}

/// What saving an API key without an open application comes to when it fails.
pub fn provision_error(profile: ProfileId, error: ApiKeyCredentialError) -> (r: Error)
    ensures
        r == Error::Credential(CredentialProblem { profile, kind: problem_kind(error) }),
{
    match api_key_error(profile, error) {
        ProviderConnectError::Credential(problem) => Error::Credential(problem),
        other => other.into_error(),
    }
}

/// The credential problem of an API-key error.
pub open spec fn problem_kind(error: ApiKeyCredentialError) -> CredentialProblemKind {
    match error {
        ApiKeyCredentialError::MissingApiKey => CredentialProblemKind::Missing,
        ApiKeyCredentialError::EndpointMismatch => CredentialProblemKind::EndpointMismatch,
        ApiKeyCredentialError::InvalidApiKey => CredentialProblemKind::Unavailable,
        ApiKeyCredentialError::Unavailable => CredentialProblemKind::Unavailable,
    }
}

/// The connection error of an API-key error.
pub fn api_key_error(profile: ProfileId, error: ApiKeyCredentialError) -> (r: ProviderConnectError)
    ensures
        r == ProviderConnectError::Credential(
            CredentialProblem { profile, kind: problem_kind(error) },
        ),
{
    let kind = match error {
        ApiKeyCredentialError::MissingApiKey => CredentialProblemKind::Missing,
        ApiKeyCredentialError::EndpointMismatch => CredentialProblemKind::EndpointMismatch,
        ApiKeyCredentialError::InvalidApiKey => CredentialProblemKind::Unavailable,
        ApiKeyCredentialError::Unavailable => CredentialProblemKind::Unavailable,
    };
    ProviderConnectError::Credential(CredentialProblem { profile, kind })
}

/// The connection error of an unusable subscription cache.
pub fn chatgpt_error(error: CredentialError) -> (r: ProviderConnectError)
    ensures
        r matches ProviderConnectError::Credential(problem) && problem.profile@
            == crate::config::chatgpt_name() && problem.kind == CredentialProblemKind::Unavailable,
{
    match error {
        CredentialError::Unavailable => ProviderConnectError::Credential(
            CredentialProblem {
                profile: ProfileId::chatgpt(),
                kind: CredentialProblemKind::Unavailable,
            },
        ),
    }
}

/// Where the endpoint of a model comes from.
#[derive(Clone, Copy, Debug, PartialEq, Eq, Structural)]
pub enum EndpointSource {
    /// The cached login of the subscription.
    Subscription,
    /// The saved API key of the profile.
    ApiKey,
    /// The endpoint that was made for the coordinator.
    Coordinator,
}

/// What has to be made before a runtime can reach its models.
#[derive(Clone, Copy, Debug, PartialEq, Eq, Structural)]
pub struct ConnectPlan {
    /// Whether the cached login is needed; it is resolved first.
    pub subscription: bool,
    pub coordinator: EndpointSource,
    pub worker: EndpointSource,
}

/// Whether a profile is reached by the subscription's login.
pub open spec fn subscribed(profile: ProfileView) -> bool {
    profile.endpoint.protocol == Protocol::ChatGptSubscription
}

/// Whether a profile is reached by the subscription's login.
pub fn is_subscription(profile: &Profile) -> (r: bool)
    ensures
        r == subscribed(profile@),
{
    profile.endpoint.protocol == Protocol::ChatGptSubscription
}

/// Where the endpoint of a profile comes from, where it is made anew.
pub open spec fn source_of(profile: ProfileView) -> EndpointSource {
    if subscribed(profile) {
        EndpointSource::Subscription
    } else {
        EndpointSource::ApiKey
    }
}

/// What is wrong with one model of a runtime, the first thing that is reported.
pub ghost enum ModelFault {
    InvalidProfile(Seq<char>),
    InvalidModel(Seq<char>),
}

/// Whether an error reports a fault.
pub open spec fn reports(error: ProviderConnectError, fault: ModelFault) -> bool {
    match fault {
        ModelFault::InvalidProfile(name) => error matches ProviderConnectError::InvalidProfile(id)
            && id@ == name,
        ModelFault::InvalidModel(name) => error matches ProviderConnectError::InvalidModel(id)
            && id@ == name,
    }
}

/// What is wrong with a model and its profile.
pub open spec fn model_fault(
    selection: crate::config::ModelSelection,
    profile: ProfileView,
) -> Option<ModelFault> {
    if profile.problem() is Some || selection.profile@ != profile.id@ {
        Some(ModelFault::InvalidProfile(profile.id@))
    } else if selection.problem() is Some {
        Some(ModelFault::InvalidModel(profile.id@))
    } else {
        None
    }
}

/// What is wrong with the models of a runtime: the coordinator's comes first, then the worker's;
/// one profile cannot have two endpoints.
pub open spec fn runtime_fault(runtime: RuntimeConfigView) -> Option<ModelFault> {
    if model_fault(runtime.coordinator, runtime.coordinator_profile) is Some {
        model_fault(runtime.coordinator, runtime.coordinator_profile)
    } else if model_fault(runtime.worker, runtime.worker_profile) is Some {
        model_fault(runtime.worker, runtime.worker_profile)
    } else if runtime.coordinator_profile.id@ == runtime.worker_profile.id@
        && !runtime.coordinator_profile.endpoint.agrees(runtime.worker_profile.endpoint) {
        Some(ModelFault::InvalidProfile(runtime.worker_profile.id@))
    } else {
        None
    }
}

/// What has to be made before a runtime can reach its models.
pub open spec fn plan_of(runtime: RuntimeConfigView) -> ConnectPlan {
    ConnectPlan {
        subscription: subscribed(runtime.coordinator_profile) || subscribed(
            runtime.worker_profile,
        ),
        coordinator: source_of(runtime.coordinator_profile),
        worker: if runtime.coordinator_profile.id@ == runtime.worker_profile.id@ {
            EndpointSource::Coordinator
        } else {
            source_of(runtime.worker_profile)
        },
    }
}

/// Checks a profile.
pub fn validate_profile(profile: &Profile) -> (r: Result<(), ProviderConnectError>)
    ensures
        if profile@.problem() is Some {
            r matches Err(ProviderConnectError::InvalidProfile(id)) && id@ == profile.id@
        } else {
            r is Ok
        },
{
    proof {
        assert(profile.problem() == profile@.problem());
    }
    match profile.validate() {
        Ok(_) => Ok(()),
        Err(_) => Err(ProviderConnectError::InvalidProfile(profile.id.clone())),
    }
}

fn validate_model(model: &ResolvedModel) -> (r: Result<(), ProviderConnectError>)
    ensures
        match model_fault(model.selection, model.profile@) {
            Some(fault) => r matches Err(error) && reports(error, fault),
            None => r is Ok,
        },
{
    match validate_profile(&model.profile) {
        Ok(_) => {},
        Err(error) => {
            return Err(error);
        },
    }
    if !model.selection.profile.same(&model.profile.id) {
        return Err(ProviderConnectError::InvalidProfile(model.profile.id.clone()));
    }
    match model.selection.validate() {
        Ok(_) => Ok(()),
        Err(_) => Err(ProviderConnectError::InvalidModel(model.profile.id.clone())),
    }
}

/// Whether this is how a configuration is connected.
pub open spec fn connects(
    runtime: RuntimeConfigView,
    r: Result<ConnectPlan, ProviderConnectError>,
) -> bool {
    match runtime_fault(runtime) {
        Some(fault) => r matches Err(error) && reports(error, fault),
        None => r matches Ok(plan) && plan == plan_of(runtime),
    }
}

/// Plans the connection of a runtime, after checking its models.
pub fn connect(runtime: &RuntimeConfig) -> (r: Result<ConnectPlan, ProviderConnectError>)
    ensures
        connects(runtime@, r),
{
    match validate_model(&runtime.coordinator) {
        Ok(_) => {},
        Err(error) => {
            return Err(error);
        },
    }
    match validate_model(&runtime.worker) {
        Ok(_) => {},
        Err(error) => {
            return Err(error);
        },
    }
    let shared = runtime.coordinator.profile.id.same(&runtime.worker.profile.id);
    if shared && !runtime.coordinator.profile.endpoint.same(&runtime.worker.profile.endpoint) {
        return Err(ProviderConnectError::InvalidProfile(runtime.worker.profile.id.clone()));
    }
    let first = is_subscription(&runtime.coordinator.profile);
    let second = is_subscription(&runtime.worker.profile);
    let coordinator = if first {
        EndpointSource::Subscription
    } else {
        EndpointSource::ApiKey
    };
    let worker = if shared {
        EndpointSource::Coordinator
    } else if second {
        EndpointSource::Subscription
    } else {
        EndpointSource::ApiKey
    };
    Ok(ConnectPlan { subscription: first || second, coordinator, worker })
}

/// Whether this says if a profile can be logged in to.
pub open spec fn is_login_target(
    profile: Profile,
    r: Result<(), ProviderConnectError>,
) -> bool {
    if profile@.problem() is Some || !subscribed(profile@) {
        r matches Err(ProviderConnectError::InvalidProfile(id)) && id@ == profile.id@
    } else {
        r is Ok
    }
}

/// Checks that a profile can be logged in to: it is the subscription.
pub fn login_target(profile: &Profile) -> (r: Result<(), ProviderConnectError>)
    ensures
        is_login_target(*profile, r),
{
    match validate_profile(profile) {
        Ok(_) => {},
        Err(error) => {
            return Err(error);
        },
    }
    if !is_subscription(profile) {
        return Err(ProviderConnectError::InvalidProfile(profile.id.clone()));
    }
    Ok(())
}

/// Whether this says if a profile takes a key.
pub open spec fn takes_api_key(
    profile: Profile,
    r: Result<(), ProviderConnectError>,
) -> bool {
    if profile@.problem() is Some || subscribed(profile@) {
        r matches Err(ProviderConnectError::InvalidProfile(id)) && id@ == profile.id@
    } else {
        r is Ok
    }
}

/// Checks that an API key can be saved for a profile: it is not the subscription.
pub fn set_api_key(profile: &Profile) -> (r: Result<(), ProviderConnectError>)
    ensures
        takes_api_key(*profile, r),
{
    match validate_profile(profile) {
        Ok(_) => {},
        Err(error) => {
            return Err(error);
        },
    }
    if is_subscription(profile) {
        return Err(ProviderConnectError::InvalidProfile(profile.id.clone()));
    }
    Ok(())
}

/// Whether this is what logging out of a profile removes.
pub open spec fn logs_out_of(
    profile: Profile,
    r: Result<EndpointSource, ProviderConnectError>,
) -> bool {
    if profile@.problem() is Some {
        r matches Err(ProviderConnectError::InvalidProfile(id)) && id@ == profile.id@
    } else {
        r matches Ok(source) && source == source_of(profile@)
    }
}

/// What logging out of a profile removes: the subscription's cache, or the saved API key.
pub fn logout_source(profile: &Profile) -> (r: Result<EndpointSource, ProviderConnectError>)
    ensures
        logs_out_of(*profile, r),
{
    match validate_profile(profile) {
        Ok(_) => {},
        Err(error) => {
            return Err(error);
        },
    }
    if is_subscription(profile) {
        Ok(EndpointSource::Subscription)
    } else {
        Ok(EndpointSource::ApiKey)
    }
}

/// Whether this says if the subscription can be connected.
pub open spec fn connects_subscription(
    cached: bool,
    r: Result<(), ProviderConnectError>,
) -> bool {
    if cached {
        r is Ok
    } else {
        r matches Err(ProviderConnectError::LoginRequired(id)) && id@
            == crate::config::chatgpt_name()
    }
}

/// The subscription can be reached where its login is cached.
pub fn connect_chatgpt(cached: bool) -> (r: Result<(), ProviderConnectError>)
    ensures
        connects_subscription(cached, r),
{
    if cached {
        Ok(())
    } else {
        Err(ProviderConnectError::LoginRequired(ProfileId::chatgpt()))
    }
}

/// A runtime that uses the subscription in either role needs the cached login, and only such a
/// runtime does.
pub proof fn law_login_is_needed_only_for_the_subscription(runtime: RuntimeConfigView)
    ensures
        plan_of(runtime).subscription <==> subscribed(runtime.coordinator_profile) || subscribed(
            runtime.worker_profile,
        ),
        plan_of(runtime).coordinator == EndpointSource::Subscription
            ==> plan_of(runtime).subscription,
        plan_of(runtime).worker == EndpointSource::Subscription ==> plan_of(runtime).subscription,
{
}

} // verus!
