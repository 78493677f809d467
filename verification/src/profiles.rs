//! The catalogue of provider connections, without their secrets.

use vstd::prelude::*;

use crate::config::{valid_label, valid_profile_name, EndpointConfig, Protocol};
use crate::text::{
    blank, byte_count, byte_len, has_trimmed_ends, is_lower_or_digit, lower_or_digit, same_text,
    to_chars,
};
use crate::uri::{scheme_of, uri_scheme};

verus! {

/// The longest name of a profile.
pub const MAX_PROFILE_ID_BYTES: usize = 64;

/// The longest label of a profile.
pub const MAX_PROFILE_LABEL_BYTES: usize = 128;

/// The name of the built-in profile.
pub const CHATGPT_PROFILE_ID: &'static str = "chatgpt";

/// The stable name of one saved connection.
#[derive(Debug, PartialEq, Eq, PartialOrd, Ord, Hash)]
pub struct LlmProfileId {
    pub value: String,
}

impl View for LlmProfileId {
    type V = Seq<char>;

    open spec fn view(&self) -> Seq<char> {
        self.value@
    }
}

/// A text that names no profile.
#[derive(Debug, PartialEq, Eq)]
pub struct LlmProfileIdError {
    pub value: String,
}

impl LlmProfileIdError {
    /// What this error says.
    pub fn message(&self) -> (r: &'static str)
        ensures
            r
                == "profile ID must be 1-64 lowercase letters, digits, or single hyphens, and cannot be a reserved model scope",
    {
        "profile ID must be 1-64 lowercase letters, digits, or single hyphens, and cannot be a reserved model scope"
    }
}

/// Whether a name stands for a scope of models.
pub open spec fn reserved(name: Seq<char>) -> bool {
    name == "default"@ || name == "global"@ || name == "coordinator"@ || name == "inherit"@
}

/// Whether a text names a profile: 1 to 64 lower-case letters, digits and single hyphens inside,
/// and no scope of models.
pub open spec fn valid_profile_id(name: Seq<char>) -> bool {
    &&& 1 <= name.len()
    &&& byte_count(name) <= MAX_PROFILE_ID_BYTES
    &&& name[0] != '-'
    &&& name.last() != '-'
    &&& forall|i: int| 0 <= i < name.len() - 1 ==> !(#[trigger] name[i] == '-' && name[i + 1] == '-')
    &&& !reserved(name)
    &&& forall|i: int|
        0 <= i < name.len() ==> is_lower_or_digit(#[trigger] name[i]) || name[i] == '-'
}

fn is_reserved(name: &str) -> (r: bool)
    ensures
        r == reserved(name@),
{
    same_text(name, "default") || same_text(name, "global") || same_text(name, "coordinator")
        || same_text(name, "inherit")
}

fn is_profile_id(name: &str) -> (r: bool)
    ensures
        r == valid_profile_id(name@),
{
    let chars = to_chars(name);
    if chars.len() == 0 || byte_len(name) > MAX_PROFILE_ID_BYTES || is_reserved(name) {
        return false;
    }
    let mut i: usize = 0;
    while i < chars.len()
        invariant
            i <= chars@.len(),
            chars@ == name@,
            chars@.len() > 0,
            forall|j: int|
                0 <= j < i ==> is_lower_or_digit(#[trigger] chars@[j]) || chars@[j] == '-',
            forall|j: int|
                0 <= j < i ==> (#[trigger] chars@[j] == '-' ==> j > 0 && j < chars@.len() - 1
                    && chars@[j - 1] != '-'),
        decreases chars@.len() - i,
    {
        let c = chars[i];
        if c == '-' {
            if i == 0 || i == chars.len() - 1 || chars[i - 1] == '-' {
                proof {
                    if i > 0 && i < chars@.len() - 1 {
                        assert(name@[i - 1] == '-' && name@[(i - 1) + 1] == '-');
                    }
                }
                return false;
            }
        } else if !lower_or_digit(c) {
            proof {
                assert(!(is_lower_or_digit(name@[i as int]) || name@[i as int] == '-'));
            }
            return false;
        }
        i = i + 1;
    }
    proof {
        assert forall|j: int| 0 <= j < name@.len() - 1 implies !(#[trigger] name@[j] == '-'
            && name@[j + 1] == '-') by {
            if name@[j] == '-' && name@[j + 1] == '-' {
                assert(chars@[j + 1] == '-');
            }
        }
        assert(chars@[0] == name@[0]);
        assert(chars@[chars@.len() - 1] == name@.last());
    }
    true
}

impl LlmProfileId {
    /// A name of a profile, refused unless it is valid.
    pub fn new(value: &str) -> (r: Result<LlmProfileId, LlmProfileIdError>)
        ensures
            match r {
                Ok(id) => valid_profile_id(value@) && id@ == value@,
                Err(error) => !valid_profile_id(value@) && error.value@ == value@,
            },
    {
        if is_profile_id(value) {
            Ok(LlmProfileId { value: value.to_owned() })
        } else {
            Err(LlmProfileIdError { value: value.to_owned() })
        }
    }

    /// The name of the built-in profile.
    pub fn chatgpt() -> (r: LlmProfileId)
        ensures
            r@ == CHATGPT_PROFILE_ID@,
    {
        LlmProfileId { value: CHATGPT_PROFILE_ID.to_owned() }
    }

    /// This name.
    pub fn as_str(&self) -> (r: &str)
        ensures
            r@ == self@,
    {
        self.value.as_str()
    }
}

/// One saved connection, without its secrets.
#[derive(Debug, PartialEq, Eq)]
pub struct LlmProfile {
    pub id: LlmProfileId,
    pub label: String,
    pub endpoint: EndpointConfig,
}

/// Why a connection is refused.
#[derive(Clone, Copy, Debug, PartialEq, Eq, Structural)]
pub enum LlmProfileError {
    InvalidLabel,
    /// The provider adapter refuses the endpoint.
    Endpoint,
    InsecureBaseUrl,
    ChatGptProfileId,
}

impl LlmProfileError {
    /// What this error says.
    pub open spec fn text(self) -> Seq<char> {
        match self {
            LlmProfileError::InvalidLabel =>
                "profile label must be trimmed, non-empty, and at most 128 bytes"@,
            LlmProfileError::Endpoint => "the provider endpoint is invalid"@,
            LlmProfileError::InsecureBaseUrl => "compatible endpoint URLs must use HTTPS"@,
            LlmProfileError::ChatGptProfileId =>
                "the ChatGPT subscription is available only through the built-in `chatgpt` profile"@,
        }
    }

    /// What this error says.
    pub fn message(self) -> (r: &'static str)
        ensures
            r@ == self.text(),
    {
        match self {
            LlmProfileError::InvalidLabel =>
                "profile label must be trimmed, non-empty, and at most 128 bytes",
            LlmProfileError::Endpoint => "the provider endpoint is invalid",
            LlmProfileError::InsecureBaseUrl => "compatible endpoint URLs must use HTTPS",
            LlmProfileError::ChatGptProfileId =>
                "the ChatGPT subscription is available only through the built-in `chatgpt` profile",
        }
    }
}

impl LlmProfile {
    /// What is wrong with this connection, the first thing that is reported.
    pub open spec fn problem(self) -> Option<LlmProfileError> {
        if !valid_label(self.label@) {
            Some(LlmProfileError::InvalidLabel)
        } else if !self.endpoint.valid {
            Some(LlmProfileError::Endpoint)
        } else if self.endpoint.protocol == Protocol::ChatGptSubscription && self.id@
            != CHATGPT_PROFILE_ID@ {
            Some(LlmProfileError::ChatGptProfileId)
        } else if self.endpoint.base_url is Some && scheme_of(self.endpoint.base_url->0@) != Some(
            "https"@,
        ) {
            Some(LlmProfileError::InsecureBaseUrl)
        } else {
            None
        }
    }

    /// A connection, refused unless it is valid.
    pub fn new(id: LlmProfileId, label: &str, endpoint: EndpointConfig) -> (r: Result<
        LlmProfile,
        LlmProfileError,
    >)
        ensures
            match r {
                Ok(profile) => {
                    &&& profile.problem() is None
                    &&& profile.id == id
                    &&& profile.label@ == label@
                    &&& profile.endpoint == endpoint
                },
                Err(error) => exists|profile: LlmProfile|
                    profile.id == id && profile.label@ == label@ && profile.endpoint == endpoint
                        && #[trigger] profile.problem() == Some(error),
            },
    {
        let profile = LlmProfile { id, label: label.to_owned(), endpoint };
        match profile.validate() {
            Ok(_) => Ok(profile),
            Err(error) => Err(error),
        }
    }

    /// The built-in connection.
    pub fn chatgpt_subscription() -> (r: LlmProfile)
        ensures
            r.id@ == CHATGPT_PROFILE_ID@,
            r.label@ == "ChatGPT subscription"@,
            r.endpoint == (EndpointConfig {
                protocol: Protocol::ChatGptSubscription,
                base_url: None,
                valid: true,
            }),
    {
        LlmProfile {
            id: LlmProfileId::chatgpt(),
            label: "ChatGPT subscription".to_owned(),
            endpoint: EndpointConfig {
                protocol: Protocol::ChatGptSubscription,
                base_url: None,
                valid: true,
            },
        }
    }

    /// Checks this connection.
    pub fn validate(&self) -> (r: Result<(), LlmProfileError>)
        ensures
            r == (match self.problem() {
                Some(error) => Err::<(), LlmProfileError>(error),
                None => Ok(()),
            }),
    {
        let label = self.label.as_str();
        if blank(label) || !has_trimmed_ends(label) || byte_len(label) > MAX_PROFILE_LABEL_BYTES {
            return Err(LlmProfileError::InvalidLabel);
        }
        if !self.endpoint.valid {
            return Err(LlmProfileError::Endpoint);
        }
        if self.endpoint.protocol == Protocol::ChatGptSubscription && !same_text(
            self.id.as_str(),
            CHATGPT_PROFILE_ID,
        ) {
            return Err(LlmProfileError::ChatGptProfileId);
        }
        match &self.endpoint.base_url {
            Some(base_url) => {
                let secure = match uri_scheme(base_url.as_str()) {
                    Some(scheme) => same_text(scheme.as_str(), "https"),
                    None => false,
                };
                if !secure {
                    return Err(LlmProfileError::InsecureBaseUrl);
                }
            },
            None => {},
        }
        Ok(())
    }
}

/// The saved connections.
#[derive(Debug, PartialEq, Eq)]
pub struct LlmProfiles {
    pub profiles: Vec<LlmProfile>,
}

/// Why saved connections are refused.
#[derive(Debug, PartialEq, Eq)]
pub enum LlmProfilesError {
    Profile(LlmProfileError),
    DuplicateId(LlmProfileId),
}

impl Default for LlmProfiles {
    fn default() -> (r: LlmProfiles)
        ensures
            r.profiles@.len() == 1,
            r.profiles@[0].id@ == CHATGPT_PROFILE_ID@,
            r.profiles@[0].endpoint.protocol == Protocol::ChatGptSubscription,
            r.profiles@[0].endpoint.base_url is None,
            r.profiles@[0].endpoint.valid,
            r.profiles@[0].label@ == "ChatGPT subscription"@,
    {
        let mut profiles: Vec<LlmProfile> = Vec::new();
        profiles.push(LlmProfile::chatgpt_subscription());
        LlmProfiles { profiles }
    }
}

/// Whether a profile is the first invalid one.
pub open spec fn first_invalid(profiles: Seq<LlmProfile>, index: int) -> bool {
    &&& 0 <= index < profiles.len()
    &&& profiles[index].problem() is Some
    &&& forall|i: int| 0 <= i < index ==> (#[trigger] profiles[i]).problem() is None
}

/// Whether a profile is the first one whose name stands before it already.
pub open spec fn first_repeated(profiles: Seq<LlmProfile>, index: int) -> bool {
    &&& 0 <= index < profiles.len()
    &&& repeats(profiles, index)
    &&& forall|i: int| 0 <= i < index ==> !#[trigger] repeats(profiles, i)
}

/// Whether the name of a profile stands before it already.
pub open spec fn repeats(profiles: Seq<LlmProfile>, index: int) -> bool {
    exists|j: int| 0 <= j < index && (#[trigger] profiles[j]).id@ == profiles[index].id@
}

/// Whether checking connections has this outcome: the first invalid one is reported, else the first
/// one whose name stands before it already.
pub open spec fn validates(profiles: Seq<LlmProfile>, r: Result<(), LlmProfilesError>) -> bool {
    match r {
        Ok(_) => {
            &&& forall|i: int|
                0 <= i < profiles.len() ==> (#[trigger] profiles[i]).problem() is None
            &&& forall|i: int| 0 <= i < profiles.len() ==> !#[trigger] repeats(profiles, i)
        },
        Err(LlmProfilesError::Profile(error)) => exists|i: int| #[trigger]
            first_invalid(profiles, i) && profiles[i].problem() == Some(error),
        Err(LlmProfilesError::DuplicateId(id)) => {
            &&& forall|i: int|
                0 <= i < profiles.len() ==> (#[trigger] profiles[i]).problem() is None
            &&& exists|i: int| #[trigger]
                first_repeated(profiles, i) && profiles[i].id@ == id@
        },
    }
}

impl LlmProfilesError {
    /// What this error says.
    pub fn message(&self) -> (r: String)
        ensures
            r@ == (match *self {
                LlmProfilesError::Profile(error) => error.text(),
                LlmProfilesError::DuplicateId(id) => "a profile named `"@ + id@
                    + "` already exists"@,
            }),
    {
        match self {
            LlmProfilesError::Profile(error) => error.message().to_owned(),
            LlmProfilesError::DuplicateId(id) => {
                let mut r = "a profile named `".to_owned();
                r.push_str(id.as_str());
                r.push_str("` already exists");
                r
            },
        }
    }
}

/// Whether adding a profile gives these profiles and this answer.
pub open spec fn adds_profile(
    before: Seq<LlmProfile>,
    profile: LlmProfile,
    after: Seq<LlmProfile>,
    r: Result<(), LlmProfilesError>,
) -> bool {
    &&& validates(before.push(profile), r)
    &&& after == (if r is Ok {
        before.push(profile)
    } else {
        before
    })
}

impl LlmProfiles {
    /// Adds a connection behind the others, unless the connections would not be in order then.
    pub fn add_profile(&mut self, profile: LlmProfile) -> (r: Result<(), LlmProfilesError>)
        ensures
            adds_profile(old(self).profiles@, profile, final(self).profiles@, r),
    {
        let ghost before = self.profiles@;
        self.profiles.push(profile);
        let r = self.validate();
        if r.is_err() {
            let _ = self.profiles.pop();
            assert(self.profiles@ =~= before);
        }
        r
    }

    /// Checks every connection, and then that no name stands twice.
    pub fn validate(&self) -> (r: Result<(), LlmProfilesError>)
        ensures
            validates(self.profiles@, r),
    {
        let mut i: usize = 0;
        while i < self.profiles.len()
            invariant
                i <= self.profiles@.len(),
                forall|j: int| 0 <= j < i ==> (#[trigger] self.profiles@[j]).problem() is None,
            decreases self.profiles@.len() - i,
        {
            match self.profiles[i].validate() {
                Ok(_) => {},
                Err(error) => {
                    proof {
                        assert(first_invalid(self.profiles@, i as int));
                    }
                    return Err(LlmProfilesError::Profile(error));
                },
            }
            i = i + 1;
        }
        let mut i: usize = 0;
        while i < self.profiles.len()
            invariant
                i <= self.profiles@.len(),
                forall|j: int|
                    0 <= j < self.profiles@.len() ==> (
                    #[trigger] self.profiles@[j]).problem() is None,
                forall|j: int| 0 <= j < i ==> !#[trigger] repeats(self.profiles@, j),
            decreases self.profiles@.len() - i,
        {
            let mut j: usize = 0;
            while j < i
                invariant
                    j <= i < self.profiles@.len(),
                    forall|k: int|
                        0 <= k < self.profiles@.len() ==> (
                        #[trigger] self.profiles@[k]).problem() is None,
                    forall|k: int| 0 <= k < i ==> !#[trigger] repeats(self.profiles@, k),
                    forall|k: int|
                        0 <= k < j ==> (#[trigger] self.profiles@[k]).id@
                            != self.profiles@[i as int].id@,
                decreases i - j,
            {
                if same_text(self.profiles[j].id.as_str(), self.profiles[i].id.as_str()) {
                    proof {
                        assert(self.profiles@[j as int].id@ == self.profiles@[i as int].id@);
                        assert(repeats(self.profiles@, i as int));
                        assert(first_repeated(self.profiles@, i as int));
                    }
                    return Err(
                        LlmProfilesError::DuplicateId(
                            LlmProfileId { value: self.profiles[i].id.value.clone() },
                        ),
                    );
                }
                j = j + 1;
            }
            i = i + 1;
        }
        Ok(())
    }

    /// The first connection of a name.
    pub fn get(&self, id: &LlmProfileId) -> (r: Option<&LlmProfile>)
        ensures
            match r {
                Some(profile) => exists|i: int|
                    {
                        &&& 0 <= i < self.profiles@.len()
                        &&& (#[trigger] self.profiles@[i]) == *profile
                        &&& profile.id@ == id@
                        &&& forall|j: int| 0 <= j < i ==> (#[trigger] self.profiles@[j]).id@ != id@
                    },
                None => forall|i: int|
                    0 <= i < self.profiles@.len() ==> (#[trigger] self.profiles@[i]).id@ != id@,
            },
    {
        let mut i: usize = 0;
        while i < self.profiles.len()
            invariant
                i <= self.profiles@.len(),
                forall|j: int| 0 <= j < i ==> (#[trigger] self.profiles@[j]).id@ != id@,
            decreases self.profiles@.len() - i,
        {
            if same_text(self.profiles[i].id.as_str(), id.as_str()) {
                proof {
                    assert(self.profiles@[i as int].id@ == id@);
                }
                return Some(&self.profiles[i]);
            }
            i = i + 1;
        }
        None
    }
}

/// Every name of a saved connection is the name of a profile too.
pub proof fn law_connection_names_are_profile_names(name: Seq<char>)
    requires
        valid_profile_id(name),
    ensures
        valid_profile_name(name),
{
    crate::config::lemma_profile_name_bytes(name);
}

/// No API key goes to a base URL that is not HTTPS: a valid connection has none.
pub proof fn law_valid_base_urls_are_secure(profile: LlmProfile)
    requires
        profile.problem() is None,
        profile.endpoint.base_url is Some,
    ensures
        scheme_of(profile.endpoint.base_url->0@) == Some("https"@),
{
}

} // verus!
