//! Profiles, model selections and the resolution of a runtime configuration.

use vstd::prelude::*;

use crate::ids::{SessionId, WorkspaceId};
use crate::path::FilePath;
use crate::text::{
    any_control, blank, byte_count, byte_len, has_trimmed_ends, holds_control, is_blank,
    is_lower_or_digit, is_trimmed, lower_or_digit, same_text, to_chars,
};

verus! {

/// The largest size of one persisted value, in bytes.
pub const MAX_PERSISTED_VALUE_BYTES: usize = 1024 * 1024;

/// The largest size of one captured tool stream, in bytes. Two streams are kept, and JSON can
/// escape each byte as six.
pub const MAX_TOOL_STREAM_BYTES: usize = 512 * 1024;

/// One second, in nanoseconds.
pub const ONE_SECOND: u128 = 1_000_000_000;

/// Why a configuration value was refused.
#[derive(Clone, Copy, Debug, PartialEq, Eq, Structural)]
pub enum ConfigError {
    InvalidProfileId,
    InvalidProfileLabel,
    InvalidEndpoint,
    InvalidModel,
    InvalidModelOptions,
    InvalidLimits,
    InvalidToolTimeout,
    PersistentPayloadLimit,
}

impl ConfigError {
    /// The message of this error.
    pub open spec fn text(self) -> Seq<char> {
        match self {
            ConfigError::InvalidProfileId => "invalid profile ID"@,
            ConfigError::InvalidProfileLabel => "invalid profile label"@,
            ConfigError::InvalidEndpoint => "invalid endpoint"@,
            ConfigError::InvalidModel => "invalid model"@,
            ConfigError::InvalidModelOptions => "invalid model options"@,
            ConfigError::InvalidLimits => "invalid runtime limits"@,
            ConfigError::InvalidToolTimeout =>
                "agent tool timeout must exceed the largest Bash timeout"@,
            ConfigError::PersistentPayloadLimit =>
                "runtime output or patch limits exceed App persistence capacity"@,
        }
    }

    /// The message of this error.
    pub fn message(self) -> (m: String)
        ensures
            m@ == self.text(),
    {
        match self {
            ConfigError::InvalidProfileId => "invalid profile ID".to_owned(),
            ConfigError::InvalidProfileLabel => "invalid profile label".to_owned(),
            ConfigError::InvalidEndpoint => "invalid endpoint".to_owned(),
            ConfigError::InvalidModel => "invalid model".to_owned(),
            ConfigError::InvalidModelOptions => "invalid model options".to_owned(),
            ConfigError::InvalidLimits => "invalid runtime limits".to_owned(),
            ConfigError::InvalidToolTimeout =>
                "agent tool timeout must exceed the largest Bash timeout".to_owned(),
            ConfigError::PersistentPayloadLimit =>
                "runtime output or patch limits exceed App persistence capacity".to_owned(),
        }
    }
}

/// Whether a profile can have this name: 1 to 64 lower-case letters, digits and hyphens.
pub open spec fn valid_profile_name(name: Seq<char>) -> bool {
    &&& 0 < name.len() <= 64
    &&& forall|i: int| 0 <= i < name.len() ==> is_lower_or_digit(#[trigger] name[i]) || name[i] == '-'
}

/// The name of the profile that a ChatGPT subscription uses.
pub open spec fn chatgpt_name() -> Seq<char> {
    "chatgpt"@
}

/// The name of a profile.
#[derive(Debug, PartialEq, Eq, PartialOrd, Ord, Hash)]
pub struct ProfileId {
    value: String,
}

impl View for ProfileId {
    type V = Seq<char>;

    closed spec fn view(&self) -> Seq<char> {
        self.value@
    }
}

/// Whether every character may stand in a profile name, checked one by one.
fn profile_characters(name: &str) -> (r: bool)
    ensures
        r == (forall|i: int|
            0 <= i < name@.len() ==> is_lower_or_digit(#[trigger] name@[i]) || name@[i] == '-'),
{
    let v = to_chars(name);
    let mut i: usize = 0;
    while i < v.len()
        invariant
            v@ == name@,
            i <= v@.len(),
            forall|j: int|
                0 <= j < i ==> is_lower_or_digit(#[trigger] v@[j]) || v@[j] == '-',
        decreases v@.len() - i,
    {
        if !lower_or_digit(v[i]) && v[i] != '-' {
            proof {
                assert(!(is_lower_or_digit(name@[i as int]) || name@[i as int] == '-'));
            }
            return false;
        }
        i = i + 1;
    }
    true
}

/// Characters of a profile name take one byte each.
pub proof fn lemma_profile_name_bytes(name: Seq<char>)
    requires
        forall|i: int| 0 <= i < name.len() ==> is_lower_or_digit(#[trigger] name[i]) || name[i] == '-',
    ensures
        byte_count(name) == name.len(),
{
    assert(vstd::utf8::is_ascii_chars(name));
    vstd::utf8::is_ascii_chars_encode_utf8(name);
}

impl ProfileId {
    #[verifier::type_invariant]
    spec fn valid(self) -> bool {
        valid_profile_name(self.value@)
    }

    /// A profile name, refused unless it is valid.
    pub fn new(value: &str) -> (r: Result<ProfileId, ConfigError>)
        ensures
            match r {
                Ok(id) => valid_profile_name(value@) && id@ == value@,
                Err(error) => !valid_profile_name(value@) && error == ConfigError::InvalidProfileId,
            },
    {
        if !value.is_empty() && profile_characters(value) {
            proof {
                lemma_profile_name_bytes(value@);
            }
            if byte_len(value) <= 64 {
                return Ok(ProfileId { value: value.to_owned() });
            }
        }
        Err(ConfigError::InvalidProfileId)
    }

    /// The name of the profile that a ChatGPT subscription uses.
    pub fn chatgpt() -> (id: ProfileId)
        ensures
            id@ == chatgpt_name(),
    {
        proof {
            reveal_strlit("chatgpt");
        }
        ProfileId { value: "chatgpt".to_owned() }
    }

    /// The text of this name.
    pub fn as_str(&self) -> (s: &str)
        ensures
            s@ == self@,
            valid_profile_name(s@),
    {
        proof {
            use_type_invariant(self);
        }
        self.value.as_str()
    }

    /// Whether two names are the same.
    pub fn same(&self, other: &ProfileId) -> (r: bool)
        ensures
            r == (self@ == other@),
    {
        self.value == other.value
    }
}

impl Clone for ProfileId {
    fn clone(&self) -> (r: ProfileId)
        ensures
            r == *self,
    {
        proof {
            use_type_invariant(self);
        }
        ProfileId { value: self.value.clone() }
    }
}

/// The protocol of a provider endpoint.
#[derive(Clone, Copy, Debug, PartialEq, Eq, Structural)]
pub enum Protocol {
    ChatGptSubscription,
    OpenAiResponses,
    OpenAiChatCompletions,
    AnthropicMessages,
}

/// A provider endpoint: its protocol, its base URL where it is not the official one, and whether
/// the provider adapter accepted it.
#[derive(Debug, PartialEq, Eq)]
pub struct EndpointConfig {
    pub protocol: Protocol,
    pub base_url: Option<String>,
    pub valid: bool,
}

impl Clone for EndpointConfig {
    fn clone(&self) -> (r: EndpointConfig)
        ensures
            r == *self,
    {
        EndpointConfig {
            protocol: self.protocol,
            base_url: self.base_url.clone(),
            valid: self.valid,
        }
    }
}

impl EndpointConfig {
    /// Whether two endpoints agree, by protocol, base URL and validity.
    pub open spec fn agrees(self, other: EndpointConfig) -> bool {
        &&& self.protocol == other.protocol
        &&& self.valid == other.valid
        &&& match (self.base_url, other.base_url) {
            (Some(a), Some(b)) => a@ == b@,
            (None, None) => true,
            _ => false,
        }
    }

    /// Whether two endpoints agree.
    pub fn same(&self, other: &EndpointConfig) -> (r: bool)
        ensures
            r == self.agrees(*other),
    {
        if self.protocol != other.protocol || self.valid != other.valid {
            return false;
        }
        match (&self.base_url, &other.base_url) {
            (Some(a), Some(b)) => same_text(a.as_str(), b.as_str()),
            (None, None) => true,
            _ => false,
        }
    }
}

/// Options of a model selection, with what the provider adapter reported of them: whether they
/// are valid in themselves, and the complaint that each protocol has against them.
#[derive(Debug, PartialEq, Eq)]
pub struct ModelOptions {
    pub encoded: String,
    pub valid: bool,
    pub chatgpt_complaint: Option<String>,
    pub responses_complaint: Option<String>,
    pub completions_complaint: Option<String>,
    pub messages_complaint: Option<String>,
}

impl Clone for ModelOptions {
    fn clone(&self) -> (r: ModelOptions)
        ensures
            r == *self,
    {
        ModelOptions {
            encoded: self.encoded.clone(),
            valid: self.valid,
            chatgpt_complaint: self.chatgpt_complaint.clone(),
            responses_complaint: self.responses_complaint.clone(),
            completions_complaint: self.completions_complaint.clone(),
            messages_complaint: self.messages_complaint.clone(),
        }
    }
}

impl ModelOptions {
    /// The complaint of a protocol against these options.
    pub open spec fn complaint(self, protocol: Protocol) -> Option<String> {
        match protocol {
            Protocol::ChatGptSubscription => self.chatgpt_complaint,
            Protocol::OpenAiResponses => self.responses_complaint,
            Protocol::OpenAiChatCompletions => self.completions_complaint,
            Protocol::AnthropicMessages => self.messages_complaint,
        }
    }

    /// Checks the options against an endpoint.
    pub fn validate_for(&self, endpoint: &EndpointConfig) -> (r: Result<(), String>)
        ensures
            match r {
                Ok(_) => self.complaint(endpoint.protocol) is None,
                Err(message) => self.complaint(endpoint.protocol) == Some(message),
            },
    {
        let complaint = match endpoint.protocol {
            Protocol::ChatGptSubscription => self.chatgpt_complaint.clone(),
            Protocol::OpenAiResponses => self.responses_complaint.clone(),
            Protocol::OpenAiChatCompletions => self.completions_complaint.clone(),
            Protocol::AnthropicMessages => self.messages_complaint.clone(),
        };
        match complaint {
            Some(message) => Err(message),
            None => Ok(()),
        }
    }
}

/// Whether a model can have this name: not blank, trimmed, at most 256 bytes, and free of control
/// characters.
pub open spec fn valid_model_id(model: Seq<char>) -> bool {
    &&& !is_blank(model)
    &&& is_trimmed(model)
    &&& byte_count(model) <= 256
    &&& !holds_control(model)
}

/// Checks the name of a model.
pub fn validate_model_id(model: &str) -> (r: Result<(), ConfigError>)
    ensures
        r == (if valid_model_id(model@) {
            Ok::<(), ConfigError>(())
        } else {
            Err(ConfigError::InvalidModel)
        }),
{
    if blank(model) || !has_trimmed_ends(model) || byte_len(model) > 256 || any_control(model) {
        return Err(ConfigError::InvalidModel);
    }
    Ok(())
}

/// A provider profile.
#[derive(Debug, PartialEq, Eq)]
pub struct Profile {
    pub id: ProfileId,
    pub label: String,
    pub endpoint: EndpointConfig,
    pub models: Vec<String>,
}

/// A profile by its values.
pub ghost struct ProfileView {
    pub id: ProfileId,
    pub label: String,
    pub endpoint: EndpointConfig,
    pub models: Seq<String>,
}

impl View for Profile {
    type V = ProfileView;

    open spec fn view(&self) -> ProfileView {
        ProfileView {
            id: self.id,
            label: self.label,
            endpoint: self.endpoint,
            models: self.models@,
        }
    }
}

/// A copy of some strings.
pub fn copy_strings(strings: &Vec<String>) -> (r: Vec<String>)
    ensures
        r@ == strings@,
{
    let mut r: Vec<String> = Vec::new();
    let mut i: usize = 0;
    while i < strings.len()
        invariant
            i <= strings@.len(),
            r@ == strings@.take(i as int),
        decreases strings@.len() - i,
    {
        r.push(strings[i].clone());
        proof {
            assert(r@ =~= strings@.take(i + 1));
        }
        i = i + 1;
    }
    proof {
        assert(strings@.take(i as int) =~= strings@);
    }
    r
}

/// Whether a model is among the given names.
pub open spec fn lists_model(models: Seq<String>, model: Seq<char>) -> bool {
    exists|i: int| 0 <= i < models.len() && (#[trigger] models[i])@ == model
}

/// Whether no two of the given names are equal.
pub open spec fn distinct_models(models: Seq<String>) -> bool {
    forall|i: int, j: int|
        0 <= i < j < models.len() ==> (#[trigger] models[i])@ != (#[trigger] models[j])@
}

/// Whether a label is trimmed, not empty and at most 128 bytes long.
pub open spec fn valid_label(label: Seq<char>) -> bool {
    !is_blank(label) && is_trimmed(label) && byte_count(label) <= 128
}

impl Profile {
    /// Whether this profile's catalogue is valid: each name by itself, and none twice.
    pub open spec fn valid_catalogue(self) -> bool {
        &&& forall|i: int| 0 <= i < self.models@.len() ==> valid_model_id((#[trigger] self.models@[i])@)
        &&& distinct_models(self.models@)
    }

    /// Whether this profile holds the subscription endpoint under another name than its own.
    pub open spec fn misplaced_subscription(self) -> bool {
        self.endpoint.protocol == Protocol::ChatGptSubscription && self.id@ != chatgpt_name()
    }

    /// What is wrong with this profile, the first thing that `validate` reports.
    pub open spec fn problem(self) -> Option<ConfigError> {
        if !valid_label(self.label@) {
            Some(ConfigError::InvalidProfileLabel)
        } else if !self.endpoint.valid {
            Some(ConfigError::InvalidEndpoint)
        } else if !self.valid_catalogue() {
            Some(ConfigError::InvalidModel)
        } else if self.misplaced_subscription() {
            Some(ConfigError::InvalidEndpoint)
        } else {
            None
        }
    }

    /// A profile without models, refused unless it is valid.
    pub fn new(id: ProfileId, label: &str, endpoint: EndpointConfig) -> (r: Result<
        Profile,
        ConfigError,
    >)
        ensures
            match r {
                Ok(profile) => {
                    &&& profile.id == id
                    &&& profile.label@ == label@
                    &&& profile.endpoint == endpoint
                    &&& profile.models@ == Seq::<String>::empty()
                    &&& profile.problem() is None
                },
                Err(error) => forall|profile: Profile| #![trigger profile.problem()]
                    profile.id == id && profile.label@ == label@ && profile.endpoint == endpoint
                        && profile.models@ == Seq::<String>::empty() ==> profile.problem() == Some(
                        error,
                    ),
            },
    {
        let profile = Profile { id, label: label.to_owned(), endpoint, models: Vec::new() };
        match profile.validate() {
            Ok(_) => Ok(profile),
            Err(error) => Err(error),
        }
    }

    /// The profile of a ChatGPT subscription.
    pub fn chatgpt() -> (profile: Profile)
        ensures
            profile.id@ == chatgpt_name(),
            profile.label@ == "ChatGPT subscription"@,
            profile.endpoint == (EndpointConfig {
                protocol: Protocol::ChatGptSubscription,
                base_url: None,
                valid: true,
            }),
            profile.models@ == Seq::<String>::empty(),
    {
        Profile {
            id: ProfileId::chatgpt(),
            label: "ChatGPT subscription".to_owned(),
            endpoint: EndpointConfig {
                protocol: Protocol::ChatGptSubscription,
                base_url: None,
                valid: true,
            },
            models: Vec::new(),
        }
    }

    /// Adds a model to the catalogue, refused where its name is invalid or already there.
    pub fn add_model(&mut self, model: &str) -> (r: Result<(), ConfigError>)
        ensures
            match r {
                Ok(_) => {
                    &&& valid_model_id(model@)
                    &&& !lists_model(old(self).models@, model@)
                    &&& final(self).models@.len() == old(self).models@.len() + 1
                    &&& final(self).models@.drop_last() == old(self).models@
                    &&& final(self).models@.last()@ == model@
                    &&& final(self)@ == (ProfileView { models: final(self).models@, ..old(self)@ })
                },
                Err(error) => {
                    &&& !valid_model_id(model@) || lists_model(old(self).models@, model@)
                    &&& error == ConfigError::InvalidModel
                    &&& *final(self) == *old(self)
                },
            },
    {
        match validate_model_id(model) {
            Ok(_) => {},
            Err(error) => {
                return Err(error);
            },
        }
        if self.has_model(model) {
            return Err(ConfigError::InvalidModel);
        }
        self.models.push(model.to_owned());
        proof {
            assert(self.models@.drop_last() =~= old(self).models@);
        }
        Ok(())
    }

    /// Removes a model from the catalogue, returning whether it was there.
    pub fn remove_model(&mut self, model: &str) -> (r: bool)
        ensures
            r == lists_model(old(self).models@, model@),
            final(self)@ == (ProfileView {
                models: old(self).models@.filter(|name: String| name@ != model@),
                ..old(self)@
            }),
    {
        let ghost keep = |name: String| name@ != model@;
        let mut kept: Vec<String> = Vec::new();
        let mut found = false;
        let mut i: usize = 0;
        proof {
            reveal(Seq::filter);
            assert(self.models@.take(0).filter(keep) =~= Seq::<String>::empty());
        }
        while i < self.models.len()
            invariant
                i <= self.models@.len(),
                *self == *old(self),
                keep == (|name: String| name@ != model@),
                kept@ == self.models@.take(i as int).filter(keep),
                found == lists_model(self.models@.take(i as int), model@),
            decreases self.models@.len() - i,
        {
            let ghost head = self.models@.take(i as int);
            let ghost more = self.models@.take(i + 1);
            proof {
                assert(more.drop_last() =~= head);
                reveal(Seq::filter);
                assert(more.last() == self.models@[i as int]);
                if lists_model(head, model@) {
                    let n = choose|n: int| 0 <= n < head.len() && (#[trigger] head[n])@ == model@;
                    assert(more[n]@ == model@);
                }
                if lists_model(more, model@) && more.last()@ != model@ {
                    let n = choose|n: int| 0 <= n < more.len() && (#[trigger] more[n])@ == model@;
                    assert(head[n]@ == model@);
                }
            }
            if same_text(self.models[i].as_str(), model) {
                found = true;
                proof {
                    assert(more[i as int]@ == model@);
                }
            } else {
                kept.push(self.models[i].clone());
            }
            i = i + 1;
        }
        proof {
            assert(self.models@.take(i as int) =~= self.models@);
        }
        self.models = kept;
        found
    }

    /// Whether a model is in the catalogue.
    pub fn has_model(&self, model: &str) -> (r: bool)
        ensures
            r == lists_model(self.models@, model@),
    {
        let mut i: usize = 0;
        while i < self.models.len()
            invariant
                i <= self.models@.len(),
                forall|j: int| 0 <= j < i ==> (#[trigger] self.models@[j])@ != model@,
            decreases self.models@.len() - i,
        {
            if same_text(self.models[i].as_str(), model) {
                return true;
            }
            i = i + 1;
        }
        false
    }

    /// Checks this profile.
    pub fn validate(&self) -> (r: Result<(), ConfigError>)
        ensures
            r == (match self.problem() {
                Some(error) => Err::<(), ConfigError>(error),
                None => Ok(()),
            }),
    {
        let label = self.label.as_str();
        if blank(label) || !has_trimmed_ends(label) || byte_len(label) > 128 {
            return Err(ConfigError::InvalidProfileLabel);
        }
        if !self.endpoint.valid {
            return Err(ConfigError::InvalidEndpoint);
        }
        let mut i: usize = 0;
        while i < self.models.len()
            invariant
                i <= self.models@.len(),
                valid_label(self.label@),
                self.endpoint.valid,
                forall|j: int| 0 <= j < i ==> valid_model_id((#[trigger] self.models@[j])@),
                distinct_models(self.models@.take(i as int)),
            decreases self.models@.len() - i,
        {
            match validate_model_id(self.models[i].as_str()) {
                Ok(_) => {},
                Err(error) => {
                    return Err(error);
                },
            }
            let mut j: usize = 0;
            while j < i
                invariant
                    j <= i < self.models@.len(),
                    valid_label(self.label@),
                    self.endpoint.valid,
                    forall|k: int|
                        0 <= k < j ==> (#[trigger] self.models@[k])@ != self.models@[i as int]@,
                decreases i - j,
            {
                if same_text(self.models[j].as_str(), self.models[i].as_str()) {
                    return Err(ConfigError::InvalidModel);
                }
                j = j + 1;
            }
            proof {
                let head = self.models@.take(i as int);
                let more = self.models@.take(i + 1);
                assert forall|a: int, b: int| 0 <= a < b < more.len() implies (
                #[trigger] more[a])@ != (#[trigger] more[b])@ by {
                    if b < i {
                        assert(head[a]@ != head[b]@);
                    } else {
                        assert(self.models@[a]@ != self.models@[i as int]@);
                    }
                }
            }
            i = i + 1;
        }
        proof {
            assert(self.models@.take(i as int) =~= self.models@);
        }
        if self.endpoint.protocol == Protocol::ChatGptSubscription && !self.id.same(
            &ProfileId::chatgpt(),
        ) {
            return Err(ConfigError::InvalidEndpoint);
        }
        Ok(())
    }

    /// A copy of this profile.
    pub fn copy(&self) -> (r: Profile)
        ensures
            r@ == self@,
    {
        Profile {
            id: self.id.clone(),
            label: self.label.clone(),
            endpoint: self.endpoint.clone(),
            models: copy_strings(&self.models),
        }
    }
}

impl ProfileView {
    /// What is wrong with a profile of these values, the first thing that `validate` reports.
    pub open spec fn problem(self) -> Option<ConfigError> {
        if !valid_label(self.label@) {
            Some(ConfigError::InvalidProfileLabel)
        } else if !self.endpoint.valid {
            Some(ConfigError::InvalidEndpoint)
        } else if !((forall|i: int|
            0 <= i < self.models.len() ==> valid_model_id((#[trigger] self.models[i])@))
            && distinct_models(self.models)) {
            Some(ConfigError::InvalidModel)
        } else if self.endpoint.protocol == Protocol::ChatGptSubscription && self.id@
            != chatgpt_name() {
            Some(ConfigError::InvalidEndpoint)
        } else {
            None
        }
    }
}

/// The model that a role of the runtime uses.
#[derive(Debug, PartialEq, Eq)]
pub struct ModelSelection {
    pub profile: ProfileId,
    pub model: String,
    pub options: Option<ModelOptions>,
}

impl Clone for ModelSelection {
    fn clone(&self) -> (r: ModelSelection)
        ensures
            r == *self,
    {
        ModelSelection {
            profile: self.profile.clone(),
            model: self.model.clone(),
            options: self.options.clone(),
        }
    }
}

impl ModelSelection {
    /// What is wrong with this selection.
    pub open spec fn problem(self) -> Option<ConfigError> {
        if !valid_model_id(self.model@) {
            Some(ConfigError::InvalidModel)
        } else if self.options is Some && !self.options->0.valid {
            Some(ConfigError::InvalidModelOptions)
        } else {
            None
        }
    }

    /// A selection without options, refused unless the model's name is valid.
    pub fn new(profile: ProfileId, model: &str) -> (r: Result<ModelSelection, ConfigError>)
        ensures
            match r {
                Ok(selection) => {
                    &&& valid_model_id(model@)
                    &&& selection.profile == profile
                    &&& selection.model@ == model@
                    &&& selection.options is None
                },
                Err(error) => !valid_model_id(model@) && error == ConfigError::InvalidModel,
            },
    {
        let selection = ModelSelection { profile, model: model.to_owned(), options: None };
        match selection.validate() {
            Ok(_) => Ok(selection),
            Err(error) => Err(error),
        }
    }

    /// Checks this selection.
    pub fn validate(&self) -> (r: Result<(), ConfigError>)
        ensures
            r == (match self.problem() {
                Some(error) => Err::<(), ConfigError>(error),
                None => Ok(()),
            }),
    {
        match validate_model_id(self.model.as_str()) {
            Ok(_) => {},
            Err(error) => {
                return Err(error);
            },
        }
        match &self.options {
            Some(options) => {
                if !options.valid {
                    return Err(ConfigError::InvalidModelOptions);
                }
            },
            None => {},
        }
        Ok(())
    }
}

/// Limits of the agent, with whether the agent accepts them. Times are in nanoseconds.
#[derive(Debug, PartialEq, Eq)]
pub struct AgentLimits {
    pub context_bytes: usize,
    pub item_bytes: usize,
    pub tool_output_bytes: usize,
    pub tool_timeout: u128,
    /// The agent's other limits, as the agent encodes them.
    pub encoded: String,
    pub valid: bool,
}

impl Clone for AgentLimits {
    fn clone(&self) -> (r: AgentLimits)
        ensures
            r == *self,
    {
        AgentLimits {
            context_bytes: self.context_bytes,
            item_bytes: self.item_bytes,
            tool_output_bytes: self.tool_output_bytes,
            tool_timeout: self.tool_timeout,
            encoded: self.encoded.clone(),
            valid: self.valid,
        }
    }
}

impl AgentLimits {
    /// Whether two limits agree in every part.
    pub open spec fn agrees(self, other: AgentLimits) -> bool {
        &&& self.context_bytes == other.context_bytes
        &&& self.item_bytes == other.item_bytes
        &&& self.tool_output_bytes == other.tool_output_bytes
        &&& self.tool_timeout == other.tool_timeout
        &&& self.encoded@ == other.encoded@
        &&& self.valid == other.valid
    }

    /// Whether two limits agree in every part.
    pub fn same(&self, other: &AgentLimits) -> (r: bool)
        ensures
            r == self.agrees(*other),
    {
        self.context_bytes == other.context_bytes && self.item_bytes == other.item_bytes
            && self.tool_output_bytes == other.tool_output_bytes && self.tool_timeout
            == other.tool_timeout && same_text(self.encoded.as_str(), other.encoded.as_str())
            && self.valid == other.valid
    }
}

/// Limits of the tools, with whether the tool adapter accepts them. Times are in nanoseconds.
#[derive(Debug, PartialEq, Eq)]
pub struct ToolLimits {
    pub max_output_bytes: usize,
    pub max_patch_bytes: usize,
    pub max_bash_timeout: u128,
    /// The adapter's other limits, as the adapter encodes them.
    pub encoded: String,
    pub valid: bool,
}

impl Clone for ToolLimits {
    fn clone(&self) -> (r: ToolLimits)
        ensures
            r == *self,
    {
        ToolLimits {
            max_output_bytes: self.max_output_bytes,
            max_patch_bytes: self.max_patch_bytes,
            max_bash_timeout: self.max_bash_timeout,
            encoded: self.encoded.clone(),
            valid: self.valid,
        }
    }
}

impl ToolLimits {
    /// Whether two limits agree in every part.
    pub open spec fn agrees(self, other: ToolLimits) -> bool {
        &&& self.max_output_bytes == other.max_output_bytes
        &&& self.max_patch_bytes == other.max_patch_bytes
        &&& self.max_bash_timeout == other.max_bash_timeout
        &&& self.encoded@ == other.encoded@
        &&& self.valid == other.valid
    }

    /// Whether two limits agree in every part.
    pub fn same(&self, other: &ToolLimits) -> (r: bool)
        ensures
            r == self.agrees(*other),
    {
        self.max_output_bytes == other.max_output_bytes && self.max_patch_bytes
            == other.max_patch_bytes && self.max_bash_timeout == other.max_bash_timeout
            && same_text(self.encoded.as_str(), other.encoded.as_str()) && self.valid
            == other.valid
    }
}

/// The user's settings of a runtime.
#[derive(Debug, PartialEq, Eq)]
pub struct RuntimeSettings {
    pub worker: Option<ModelSelection>,
    pub coordinator: Option<ModelSelection>,
    pub limits: AgentLimits,
    pub tools: ToolLimits,
}

impl Clone for RuntimeSettings {
    fn clone(&self) -> (r: RuntimeSettings)
        ensures
            r == *self,
    {
        RuntimeSettings {
            worker: self.worker.clone(),
            coordinator: self.coordinator.clone(),
            limits: self.limits.clone(),
            tools: self.tools.clone(),
        }
    }
}

impl RuntimeSettings {
    /// The settings of a user who has set nothing, from the adapters' own limits: the agent waits
    /// one second longer for a tool than the longest Bash call may take.
    pub fn defaults(limits: AgentLimits, tools: ToolLimits) -> (r: RuntimeSettings)
        requires
            tools.max_bash_timeout + ONE_SECOND <= u128::MAX,
        ensures
            r.worker is None,
            r.coordinator is None,
            r.limits == (AgentLimits {
                tool_timeout: (tools.max_bash_timeout + ONE_SECOND) as u128,
                ..limits
            }),
            r.tools == tools,
            r.limits.tool_timeout > r.tools.max_bash_timeout,
    {
        RuntimeSettings {
            worker: None,
            coordinator: None,
            limits: AgentLimits {
                context_bytes: limits.context_bytes,
                item_bytes: limits.item_bytes,
                tool_output_bytes: limits.tool_output_bytes,
                tool_timeout: tools.max_bash_timeout + ONE_SECOND,
                encoded: limits.encoded,
                valid: limits.valid,
            },
            tools,
        }
    }
}

/// What a workspace or a session overrides of the user's settings.
#[derive(Debug, PartialEq, Eq)]
pub struct RuntimeOverrides {
    pub worker: Option<ModelSelection>,
    pub coordinator: Option<ModelSelection>,
    pub limits: Option<AgentLimits>,
    pub tools: Option<ToolLimits>,
}

impl RuntimeOverrides {
    /// Overrides of nothing.
    pub open spec fn none() -> RuntimeOverrides {
        RuntimeOverrides { worker: None, coordinator: None, limits: None, tools: None }
    }
}

impl Clone for RuntimeOverrides {
    fn clone(&self) -> (r: RuntimeOverrides)
        ensures
            r == *self,
    {
        RuntimeOverrides {
            worker: self.worker.clone(),
            coordinator: self.coordinator.clone(),
            limits: self.limits.clone(),
            tools: self.tools.clone(),
        }
    }
}

impl Default for RuntimeOverrides {
    fn default() -> (r: RuntimeOverrides)
        ensures
            r == RuntimeOverrides::none(),
    {
        RuntimeOverrides { worker: None, coordinator: None, limits: None, tools: None }
    }
}

/// Where a configuration value applies.
#[derive(Clone, Copy, Debug, PartialEq, Eq, Structural)]
pub enum ConfigScope {
    User,
    Workspace(WorkspaceId),
    Session(SessionId),
}

/// A change of one configuration value; `None` takes the value back.
#[derive(Debug, PartialEq, Eq)]
pub enum ConfigChange {
    Model(Option<ModelSelection>),
    Worker(Option<ModelSelection>),
    Coordinator(Option<ModelSelection>),
    Limits(Option<AgentLimits>),
    Tools(Option<ToolLimits>),
}

/// Why a runtime cannot be configured.
#[derive(Debug, PartialEq, Eq)]
pub enum ConfigProblem {
    NeedsModel,
    MissingProfile(ProfileId),
    Invalid(String),
}

impl Clone for ConfigProblem {
    fn clone(&self) -> (r: ConfigProblem)
        ensures
            r == *self,
    {
        match self {
            ConfigProblem::NeedsModel => ConfigProblem::NeedsModel,
            ConfigProblem::MissingProfile(id) => ConfigProblem::MissingProfile(id.clone()),
            ConfigProblem::Invalid(message) => ConfigProblem::Invalid(message.clone()),
        }
    }
}

/// A configuration problem by its values.
pub ghost enum ConfigProblemView {
    NeedsModel,
    MissingProfile(Seq<char>),
    Invalid(Seq<char>),
}

impl View for ConfigProblem {
    type V = ConfigProblemView;

    open spec fn view(&self) -> ConfigProblemView {
        match self {
            ConfigProblem::NeedsModel => ConfigProblemView::NeedsModel,
            ConfigProblem::MissingProfile(id) => ConfigProblemView::MissingProfile(id@),
            ConfigProblem::Invalid(message) => ConfigProblemView::Invalid(message@),
        }
    }
}

impl ConfigProblem {
    /// Whether two problems are the same.
    pub fn same(&self, other: &ConfigProblem) -> (r: bool)
        ensures
            r == (self@ == other@),
    {
        match (self, other) {
            (ConfigProblem::NeedsModel, ConfigProblem::NeedsModel) => true,
            (ConfigProblem::MissingProfile(a), ConfigProblem::MissingProfile(b)) => a.same(b),
            (ConfigProblem::Invalid(a), ConfigProblem::Invalid(b)) => same_text(
                a.as_str(),
                b.as_str(),
            ),
            _ => false,
        }
    }
}

/// Whether two lists hold the same texts in the same order.
pub open spec fn same_strings(a: Seq<String>, b: Seq<String>) -> bool {
    &&& a.len() == b.len()
    &&& forall|i: int| #![trigger a[i]] 0 <= i < a.len() ==> a[i]@ == b[i]@
}

fn strings_agree(a: &Vec<String>, b: &Vec<String>) -> (r: bool)
    ensures
        r == same_strings(a@, b@),
{
    if a.len() != b.len() {
        return false;
    }
    let mut i: usize = 0;
    while i < a.len()
        invariant
            i <= a@.len(),
            a@.len() == b@.len(),
            forall|j: int| #![trigger a@[j]] 0 <= j < i ==> a@[j]@ == b@[j]@,
        decreases a@.len() - i,
    {
        if !same_text(a[i].as_str(), b[i].as_str()) {
            assert(a@[i as int]@ != b@[i as int]@);
            return false;
        }
        i = i + 1;
    }
    true
}

impl ModelSelection {
    /// Whether two selections choose the same model with the same options.
    pub open spec fn agrees(self, other: ModelSelection) -> bool {
        &&& self.profile@ == other.profile@
        &&& self.model@ == other.model@
        &&& match (self.options, other.options) {
            (Some(a), Some(b)) => a.encoded@ == b.encoded@,
            (None, None) => true,
            _ => false,
        }
    }

    /// Whether two selections choose the same model with the same options.
    pub fn same(&self, other: &ModelSelection) -> (r: bool)
        ensures
            r == self.agrees(*other),
    {
        if !self.profile.same(&other.profile) || !same_text(
            self.model.as_str(),
            other.model.as_str(),
        ) {
            return false;
        }
        match (&self.options, &other.options) {
            (Some(a), Some(b)) => same_text(a.encoded.as_str(), b.encoded.as_str()),
            (None, None) => true,
            _ => false,
        }
    }
}

impl Profile {
    /// Whether two profiles agree in every part.
    pub open spec fn agrees(self, other: Profile) -> bool {
        &&& self.id@ == other.id@
        &&& self.label@ == other.label@
        &&& self.endpoint.agrees(other.endpoint)
        &&& same_strings(self.models@, other.models@)
    }

    /// Whether two profiles agree in every part.
    pub fn same(&self, other: &Profile) -> (r: bool)
        ensures
            r == self.agrees(*other),
    {
        self.id.same(&other.id) && same_text(self.label.as_str(), other.label.as_str())
            && self.endpoint.same(&other.endpoint) && strings_agree(&self.models, &other.models)
    }
}

impl RuntimeConfig {
    /// Whether two configurations agree in every part.
    pub open spec fn agrees(self, other: RuntimeConfig) -> bool {
        &&& self.coordinator.selection.agrees(other.coordinator.selection)
        &&& self.coordinator.profile.agrees(other.coordinator.profile)
        &&& self.worker.selection.agrees(other.worker.selection)
        &&& self.worker.profile.agrees(other.worker.profile)
        &&& self.limits.agrees(other.limits)
        &&& self.tools.agrees(other.tools)
        &&& self.workspace@ == other.workspace@
    }

    /// Whether two configurations agree in every part.
    pub fn same(&self, other: &RuntimeConfig) -> (r: bool)
        ensures
            r == self.agrees(*other),
    {
        self.coordinator.selection.same(&other.coordinator.selection)
            && self.coordinator.profile.same(&other.coordinator.profile)
            && self.worker.selection.same(&other.worker.selection) && self.worker.profile.same(
            &other.worker.profile,
        ) && self.limits.same(&other.limits) && self.tools.same(&other.tools)
            && self.workspace.same(&other.workspace)
    }
}

/// A selection with the profile that it names.
#[derive(Debug, PartialEq, Eq)]
pub struct ResolvedModel {
    pub selection: ModelSelection,
    pub profile: Profile,
}

/// The complete configuration of a runtime.
#[derive(Debug, PartialEq, Eq)]
pub struct RuntimeConfig {
    pub coordinator: ResolvedModel,
    pub worker: ResolvedModel,
    pub limits: AgentLimits,
    pub tools: ToolLimits,
    pub workspace: FilePath,
}

/// A runtime configuration by its values.
pub ghost struct RuntimeConfigView {
    pub coordinator: ModelSelection,
    pub coordinator_profile: ProfileView,
    pub worker: ModelSelection,
    pub worker_profile: ProfileView,
    pub limits: AgentLimits,
    pub tools: ToolLimits,
    pub workspace: Seq<u8>,
}

impl View for RuntimeConfig {
    type V = RuntimeConfigView;

    open spec fn view(&self) -> RuntimeConfigView {
        RuntimeConfigView {
            coordinator: self.coordinator.selection,
            coordinator_profile: self.coordinator.profile@,
            worker: self.worker.selection,
            worker_profile: self.worker.profile@,
            limits: self.limits,
            tools: self.tools,
            workspace: self.workspace@,
        }
    }
}

impl RuntimeConfig {
    /// A copy of this configuration.
    pub fn copy(&self) -> (r: RuntimeConfig)
        ensures
            r@ == self@,
    {
        RuntimeConfig {
            coordinator: ResolvedModel {
                selection: self.coordinator.selection.clone(),
                profile: self.coordinator.profile.copy(),
            },
            worker: ResolvedModel {
                selection: self.worker.selection.clone(),
                profile: self.worker.profile.copy(),
            },
            limits: self.limits.clone(),
            tools: self.tools.clone(),
            workspace: self.workspace.copy(),
        }
    }
}

/// The configuration that a session wants, and the one that it runs with.
#[derive(Debug, PartialEq, Eq)]
pub struct ResolvedConfig {
    pub desired: Result<RuntimeConfig, ConfigProblem>,
    pub running: Option<RuntimeConfig>,
}

/// The value of the nearest scope that has one: session, then workspace, then user.
pub open spec fn nearest_value<T>(session: Option<T>, workspace: Option<T>, user: Option<T>) -> Option<
    T,
> {
    match session {
        Some(value) => Some(value),
        None => match workspace {
            Some(value) => Some(value),
            None => user,
        },
    }
}

/// The overrides of an absent scope are none.
pub open spec fn overrides_of(scope: Option<&RuntimeOverrides>) -> RuntimeOverrides {
    match scope {
        Some(overrides) => *overrides,
        None => RuntimeOverrides::none(),
    }
}

/// The worker that the scopes select.
pub open spec fn wanted_worker(
    global: RuntimeSettings,
    workspace: Option<&RuntimeOverrides>,
    session: Option<&RuntimeOverrides>,
) -> Option<ModelSelection> {
    nearest_value(overrides_of(session).worker, overrides_of(workspace).worker, global.worker)
}

/// The coordinator that the scopes select; without one, the worker coordinates.
pub open spec fn wanted_coordinator(
    global: RuntimeSettings,
    workspace: Option<&RuntimeOverrides>,
    session: Option<&RuntimeOverrides>,
) -> Option<ModelSelection> {
    match nearest_value(
        overrides_of(session).coordinator,
        overrides_of(workspace).coordinator,
        global.coordinator,
    ) {
        Some(selection) => Some(selection),
        None => wanted_worker(global, workspace, session),
    }
}

/// The agent limits that the scopes select.
pub open spec fn wanted_limits(
    global: RuntimeSettings,
    workspace: Option<&RuntimeOverrides>,
    session: Option<&RuntimeOverrides>,
) -> AgentLimits {
    nearest_value(
        overrides_of(session).limits,
        overrides_of(workspace).limits,
        Some(global.limits),
    )->0
}

/// The tool limits that the scopes select.
pub open spec fn wanted_tools(
    global: RuntimeSettings,
    workspace: Option<&RuntimeOverrides>,
    session: Option<&RuntimeOverrides>,
) -> ToolLimits {
    nearest_value(overrides_of(session).tools, overrides_of(workspace).tools, Some(global.tools))->0
}

/// What is wrong with agent limits.
pub open spec fn agent_limits_problem(limits: AgentLimits) -> Option<ConfigError> {
    if !limits.valid {
        Some(ConfigError::InvalidLimits)
    } else if limits.context_bytes > MAX_PERSISTED_VALUE_BYTES || limits.item_bytes
        > MAX_PERSISTED_VALUE_BYTES || limits.tool_output_bytes > MAX_PERSISTED_VALUE_BYTES {
        Some(ConfigError::PersistentPayloadLimit)
    } else {
        None
    }
}

/// What is wrong with tool limits.
pub open spec fn tool_limits_problem(tools: ToolLimits) -> Option<ConfigError> {
    if !tools.valid {
        Some(ConfigError::InvalidLimits)
    } else if tools.max_output_bytes > MAX_TOOL_STREAM_BYTES || tools.max_patch_bytes
        > MAX_PERSISTED_VALUE_BYTES {
        Some(ConfigError::PersistentPayloadLimit)
    } else {
        None
    }
}

/// What is wrong with the parts of a runtime configuration, in the order in which it is checked.
pub open spec fn runtime_problem(
    worker: ModelSelection,
    coordinator: ModelSelection,
    limits: AgentLimits,
    tools: ToolLimits,
) -> Option<ConfigError> {
    if worker.problem() is Some {
        worker.problem()
    } else if coordinator.problem() is Some {
        coordinator.problem()
    } else if agent_limits_problem(limits) is Some {
        agent_limits_problem(limits)
    } else if tool_limits_problem(tools) is Some {
        tool_limits_problem(tools)
    } else if limits.tool_timeout <= tools.max_bash_timeout {
        Some(ConfigError::InvalidToolTimeout)
    } else {
        None
    }
}

/// Whether the profile at `index` is the first with the given name.
pub open spec fn first_profile(profiles: Seq<Profile>, name: Seq<char>, index: int) -> bool {
    &&& 0 <= index < profiles.len()
    &&& profiles[index].id@ == name
    &&& forall|i: int| 0 <= i < index ==> (#[trigger] profiles[i]).id@ != name
}

/// Whether some profile has the given name.
pub open spec fn has_profile(profiles: Seq<Profile>, name: Seq<char>) -> bool {
    exists|i: int| 0 <= i < profiles.len() && (#[trigger] profiles[i]).id@ == name
}

/// The first profile with the given name.
pub open spec fn profile_named(profiles: Seq<Profile>, name: Seq<char>) -> Profile {
    profiles[choose|i: int| first_profile(profiles, name, i)]
}

/// Where a name is in use, one profile is the first with it.
pub proof fn lemma_first_profile(profiles: Seq<Profile>, name: Seq<char>, index: int)
    requires
        first_profile(profiles, name, index),
    ensures
        has_profile(profiles, name),
        profile_named(profiles, name) == profiles[index],
{
    let other = choose|i: int| first_profile(profiles, name, i);
    assert(first_profile(profiles, name, other));
    if other < index {
        assert(profiles[other].id@ != name);
    } else if index < other {
        assert(profiles[index].id@ != name);
    }
}

/// Why a selection cannot be resolved against the profiles.
pub open spec fn model_problem(selection: ModelSelection, profiles: Seq<Profile>) -> Option<
    ConfigProblemView,
> {
    if !has_profile(profiles, selection.profile@) {
        Some(ConfigProblemView::MissingProfile(selection.profile@))
    } else {
        let profile = profile_named(profiles, selection.profile@);
        match selection.options {
            None => None,
            Some(options) => match options.complaint(profile.endpoint.protocol) {
                Some(message) => Some(ConfigProblemView::Invalid(message@)),
                None => None,
            },
        }
    }
}

/// Why the scopes yield no runtime configuration, the first thing that is reported.
pub open spec fn resolution_problem(
    global: RuntimeSettings,
    workspace: Option<&RuntimeOverrides>,
    session: Option<&RuntimeOverrides>,
    profiles: Seq<Profile>,
) -> Option<ConfigProblemView> {
    match wanted_worker(global, workspace, session) {
        None => Some(ConfigProblemView::NeedsModel),
        Some(worker) => {
            let coordinator = wanted_coordinator(global, workspace, session)->0;
            match runtime_problem(
                worker,
                coordinator,
                wanted_limits(global, workspace, session),
                wanted_tools(global, workspace, session),
            ) {
                Some(error) => Some(ConfigProblemView::Invalid(error.text())),
                None => if model_problem(coordinator, profiles) is Some {
                    model_problem(coordinator, profiles)
                } else {
                    model_problem(worker, profiles)
                },
            }
        },
    }
}

/// The runtime configuration that the scopes yield.
pub open spec fn resolution(
    global: RuntimeSettings,
    workspace: Option<&RuntimeOverrides>,
    session: Option<&RuntimeOverrides>,
    profiles: Seq<Profile>,
    root: Seq<u8>,
) -> RuntimeConfigView {
    let worker = wanted_worker(global, workspace, session)->0;
    let coordinator = wanted_coordinator(global, workspace, session)->0;
    RuntimeConfigView {
        coordinator,
        coordinator_profile: profile_named(profiles, coordinator.profile@)@,
        worker,
        worker_profile: profile_named(profiles, worker.profile@)@,
        limits: wanted_limits(global, workspace, session),
        tools: wanted_tools(global, workspace, session),
        workspace: root,
    }
}

/// The configuration of a runtime: each value from the nearest scope, with the profiles that the
/// selections name.
pub fn resolve_runtime(
    global: &RuntimeSettings,
    workspace: Option<&RuntimeOverrides>,
    session: Option<&RuntimeOverrides>,
    profiles: &Vec<Profile>,
    root: FilePath,
) -> (r: Result<RuntimeConfig, ConfigProblem>)
    ensures
        match r {
            Ok(config) => {
                &&& resolution_problem(*global, workspace, session, profiles@) is None
                &&& config@ == resolution(*global, workspace, session, profiles@, root@)
            },
            Err(problem) => resolution_problem(*global, workspace, session, profiles@) == Some(
                problem@,
            ),
        },
{
    let session_worker = match session {
        Some(value) => value.worker.clone(),
        None => None,
    };
    let workspace_worker = match workspace {
        Some(value) => value.worker.clone(),
        None => None,
    };
    let worker = match nearest(session_worker, workspace_worker, global.worker.clone()) {
        Some(selection) => selection,
        None => {
            return Err(ConfigProblem::NeedsModel);
        },
    };
    let session_coordinator = match session {
        Some(value) => value.coordinator.clone(),
        None => None,
    };
    let workspace_coordinator = match workspace {
        Some(value) => value.coordinator.clone(),
        None => None,
    };
    let coordinator = match nearest(
        session_coordinator,
        workspace_coordinator,
        global.coordinator.clone(),
    ) {
        Some(selection) => selection,
        None => worker.clone(),
    };
    let session_limits = match session {
        Some(value) => value.limits.clone(),
        None => None,
    };
    let workspace_limits = match workspace {
        Some(value) => value.limits.clone(),
        None => None,
    };
    let limits = match session_limits {
        Some(value) => value,
        None => match workspace_limits {
            Some(value) => value,
            None => global.limits.clone(),
        },
    };
    let session_tools = match session {
        Some(value) => value.tools.clone(),
        None => None,
    };
    let workspace_tools = match workspace {
        Some(value) => value.tools.clone(),
        None => None,
    };
    let tools = match session_tools {
        Some(value) => value,
        None => match workspace_tools {
            Some(value) => value,
            None => global.tools.clone(),
        },
    };
    match validate_runtime(&worker, &coordinator, &limits, &tools) {
        Ok(_) => {},
        Err(error) => {
            return Err(ConfigProblem::Invalid(error.message()));
        },
    }
    let coordinator = match resolve_model(coordinator, profiles) {
        Ok(model) => model,
        Err(problem) => {
            return Err(problem);
        },
    };
    let worker = match resolve_model(worker, profiles) {
        Ok(model) => model,
        Err(problem) => {
            return Err(problem);
        },
    };
    Ok(RuntimeConfig { coordinator, worker, limits, tools, workspace: root })
}

/// The selection of the nearest scope that has one.
fn nearest(
    session: Option<ModelSelection>,
    workspace: Option<ModelSelection>,
    user: Option<ModelSelection>,
) -> (r: Option<ModelSelection>)
    ensures
        r == nearest_value(session, workspace, user),
{
    match session {
        Some(selection) => Some(selection),
        None => match workspace {
            Some(selection) => Some(selection),
            None => user,
        },
    }
}

/// A selection with the first profile that it names.
pub fn resolve_model(selection: ModelSelection, profiles: &Vec<Profile>) -> (r: Result<
    ResolvedModel,
    ConfigProblem,
>)
    ensures
        match r {
            Ok(model) => {
                &&& model_problem(selection, profiles@) is None
                &&& model.selection == selection
                &&& model.profile@ == profile_named(profiles@, selection.profile@)@
            },
            Err(problem) => model_problem(selection, profiles@) == Some(problem@),
        },
{
    let mut i: usize = 0;
    while i < profiles.len()
        invariant
            i <= profiles@.len(),
            forall|j: int| 0 <= j < i ==> (#[trigger] profiles@[j]).id@ != selection.profile@,
        decreases profiles@.len() - i,
    {
        if profiles[i].id.same(&selection.profile) {
            proof {
                assert(first_profile(profiles@, selection.profile@, i as int));
                lemma_first_profile(profiles@, selection.profile@, i as int);
            }
            match &selection.options {
                Some(options) => match options.validate_for(&profiles[i].endpoint) {
                    Ok(_) => {},
                    Err(message) => {
                        return Err(ConfigProblem::Invalid(message));
                    },
                },
                None => {},
            }
            return Ok(ResolvedModel { selection, profile: profiles[i].copy() });
        }
        i = i + 1;
    }
    Err(ConfigProblem::MissingProfile(selection.profile.clone()))
}

/// Checks the parts of a runtime configuration.
pub fn validate_runtime(
    worker: &ModelSelection,
    coordinator: &ModelSelection,
    limits: &AgentLimits,
    tools: &ToolLimits,
) -> (r: Result<(), ConfigError>)
    ensures
        r == (match runtime_problem(*worker, *coordinator, *limits, *tools) {
            Some(error) => Err::<(), ConfigError>(error),
            None => Ok(()),
        }),
{
    match worker.validate() {
        Ok(_) => {},
        Err(error) => {
            return Err(error);
        },
    }
    match coordinator.validate() {
        Ok(_) => {},
        Err(error) => {
            return Err(error);
        },
    }
    match validate_agent_limits(limits) {
        Ok(_) => {},
        Err(error) => {
            return Err(error);
        },
    }
    match validate_tool_limits(tools) {
        Ok(_) => {},
        Err(error) => {
            return Err(error);
        },
    }
    if limits.tool_timeout <= tools.max_bash_timeout {
        return Err(ConfigError::InvalidToolTimeout);
    }
    Ok(())
}

/// Checks agent limits.
pub fn validate_agent_limits(limits: &AgentLimits) -> (r: Result<(), ConfigError>)
    ensures
        r == (match agent_limits_problem(*limits) {
            Some(error) => Err::<(), ConfigError>(error),
            None => Ok(()),
        }),
{
    if !limits.valid {
        return Err(ConfigError::InvalidLimits);
    }
    if limits.context_bytes > MAX_PERSISTED_VALUE_BYTES || limits.item_bytes
        > MAX_PERSISTED_VALUE_BYTES || limits.tool_output_bytes > MAX_PERSISTED_VALUE_BYTES {
        return Err(ConfigError::PersistentPayloadLimit);
    }
    Ok(())
}

/// Checks tool limits.
pub fn validate_tool_limits(tools: &ToolLimits) -> (r: Result<(), ConfigError>)
    ensures
        r == (match tool_limits_problem(*tools) {
            Some(error) => Err::<(), ConfigError>(error),
            None => Ok(()),
        }),
{
    if !tools.valid {
        return Err(ConfigError::InvalidLimits);
    }
    if tools.max_output_bytes > MAX_TOOL_STREAM_BYTES || tools.max_patch_bytes
        > MAX_PERSISTED_VALUE_BYTES {
        return Err(ConfigError::PersistentPayloadLimit);
    }
    Ok(())
}

/// A session's own worker wins over every other scope, and coordinates too where no scope names a
/// coordinator.
pub proof fn law_session_worker_wins(
    global: RuntimeSettings,
    workspace: Option<&RuntimeOverrides>,
    session: RuntimeOverrides,
)
    requires
        session.worker is Some,
    ensures
        wanted_worker(global, workspace, Some(&session)) == session.worker,
        session.coordinator is None && overrides_of(workspace).coordinator is None
            && global.coordinator is None ==> wanted_coordinator(global, workspace, Some(&session))
            == session.worker,
{
}

/// Every value comes from the nearest scope that has one: the session, then the workspace, then the
/// user.
pub proof fn law_nearest_scope_wins(
    global: RuntimeSettings,
    workspace: RuntimeOverrides,
    session: RuntimeOverrides,
)
    ensures
        session.worker is Some ==> wanted_worker(global, Some(&workspace), Some(&session))
            == session.worker,
        session.worker is None && workspace.worker is Some ==> wanted_worker(
            global,
            Some(&workspace),
            Some(&session),
        ) == workspace.worker,
        session.worker is None && workspace.worker is None ==> wanted_worker(
            global,
            Some(&workspace),
            Some(&session),
        ) == global.worker,
        session.coordinator is Some ==> wanted_coordinator(
            global,
            Some(&workspace),
            Some(&session),
        ) == session.coordinator,
        session.coordinator is None && workspace.coordinator is Some ==> wanted_coordinator(
            global,
            Some(&workspace),
            Some(&session),
        ) == workspace.coordinator,
        session.coordinator is None && workspace.coordinator is None && global.coordinator is Some
            ==> wanted_coordinator(global, Some(&workspace), Some(&session)) == global.coordinator,
        wanted_limits(global, Some(&workspace), Some(&session)) == (match session.limits {
            Some(limits) => limits,
            None => match workspace.limits {
                Some(limits) => limits,
                None => global.limits,
            },
        }),
        wanted_tools(global, Some(&workspace), Some(&session)) == (match session.tools {
            Some(tools) => tools,
            None => match workspace.tools {
                Some(tools) => tools,
                None => global.tools,
            },
        }),
{
}

/// A scope that overrides nothing changes nothing.
pub proof fn law_empty_overrides_are_transparent(
    global: RuntimeSettings,
    workspace: Option<&RuntimeOverrides>,
    session: RuntimeOverrides,
    profiles: Seq<Profile>,
    root: Seq<u8>,
)
    requires
        session == RuntimeOverrides::none(),
    ensures
        resolution_problem(global, workspace, Some(&session), profiles) == resolution_problem(
            global,
            workspace,
            None,
            profiles,
        ),
        resolution(global, workspace, Some(&session), profiles, root) == resolution(
            global,
            workspace,
            None,
            profiles,
            root,
        ),
{
}

/// A removed model is no longer in the catalogue, and every other model still is.
pub proof fn law_removed_model_is_gone(models: Seq<String>, model: Seq<char>, other: Seq<char>)
    ensures
        !lists_model(models.filter(|name: String| name@ != model), model),
        other != model ==> (lists_model(models.filter(|name: String| name@ != model), other)
            <==> lists_model(models, other)),
    decreases models.len(),
{
    let keep = |name: String| name@ != model;
    reveal(Seq::filter);
    if models.len() > 0 {
        let head = models.drop_last();
        law_removed_model_is_gone(head, model, other);
        let kept = head.filter(keep);
        let all = models.filter(keep);
        assert(all == if keep(models.last()) {
            kept.push(models.last())
        } else {
            kept
        });
        if lists_model(all, model) {
            let n = choose|n: int| 0 <= n < all.len() && (#[trigger] all[n])@ == model;
            assert(n < kept.len());
            assert(kept[n]@ == model);
        }
        if other != model {
            if lists_model(all, other) {
                let n = choose|n: int| 0 <= n < all.len() && (#[trigger] all[n])@ == other;
                if n < kept.len() {
                    assert(kept[n]@ == other);
                    let m = choose|m: int| 0 <= m < head.len() && (#[trigger] head[m])@ == other;
                    assert(models[m]@ == other);
                } else {
                    assert(models[models.len() - 1]@ == other);
                }
            }
            if lists_model(models, other) {
                let m = choose|m: int| 0 <= m < models.len() && (#[trigger] models[m])@ == other;
                if m < head.len() {
                    assert(head[m]@ == other);
                    let n = choose|n: int| 0 <= n < kept.len() && (#[trigger] kept[n])@ == other;
                    assert(all[n]@ == other);
                } else {
                    assert(all[all.len() - 1]@ == other);
                }
            }
        }
    }
}

} // verus!
