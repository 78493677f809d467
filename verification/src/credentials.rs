//! API keys of provider profiles, bound to the endpoint that they were saved for, and the place of
//! the subscription's own cache.

use vstd::prelude::*;
use vstd::utf8::encode_utf8;

use crate::config::{
    valid_profile_name, EndpointConfig, Profile, ProfileId, Protocol,
};
use crate::hashing::{is_digest, is_lower_hex, sha256_hex, sha256_hex_of};
use crate::path::{absolute, append_bytes, joined, FilePath};
use crate::safe_file::{file_fault, validate_private_file, EntryFacts};
use crate::text::{
    blank, byte_count, byte_len, from_chars, is_blank, same_text, to_chars,
};
use crate::uri::{
    url_front, url_front_of, url_path, url_path_of, url_with_path, url_with_path_of,
    without_slashes, MAX_URL_BYTES,
};

verus! {

/// The version of the credential file.
pub const SCHEMA_VERSION: u32 = 1;

/// An API key.
pub struct ApiKey {
    value: String,
}

impl View for ApiKey {
    type V = Seq<char>;

    closed spec fn view(&self) -> Seq<char> {
        self.value@
    }
}

/// Why an API key cannot be used.
#[derive(Clone, Copy, Debug, PartialEq, Eq, Structural)]
pub enum ApiKeyCredentialError {
    MissingApiKey,
    InvalidApiKey,
    /// The credential file is unavailable or unsafe.
    Unavailable,
    /// The saved key belongs to another endpoint.
    EndpointMismatch,
}

impl ApiKeyCredentialError {
    /// What this error says. It never holds a key.
    pub open spec fn text(self) -> Seq<char> {
        match self {
            ApiKeyCredentialError::MissingApiKey =>
                "API key is not configured for this provider profile"@,
            ApiKeyCredentialError::InvalidApiKey => "API key is invalid"@,
            ApiKeyCredentialError::Unavailable =>
                "API-key credential file is unavailable or unsafe"@,
            ApiKeyCredentialError::EndpointMismatch =>
                "saved API key belongs to a different provider endpoint"@,
        }
    }

    /// What this error says.
    pub fn message(self) -> (r: String)
        ensures
            r@ == self.text(),
    {
        match self {
            ApiKeyCredentialError::MissingApiKey =>
                "API key is not configured for this provider profile".to_owned(),
            ApiKeyCredentialError::InvalidApiKey => "API key is invalid".to_owned(),
            ApiKeyCredentialError::Unavailable =>
                "API-key credential file is unavailable or unsafe".to_owned(),
            ApiKeyCredentialError::EndpointMismatch =>
                "saved API key belongs to a different provider endpoint".to_owned(),
        }
    }
}

impl ApiKey {
    /// A key, refused where it is blank.
    pub fn new(value: String) -> (r: Result<ApiKey, ApiKeyCredentialError>)
        ensures
            match r {
                Ok(key) => !is_blank(value@) && key@ == value@,
                Err(error) => is_blank(value@) && error == ApiKeyCredentialError::InvalidApiKey,
            },
    {
        if blank(value.as_str()) {
            return Err(ApiKeyCredentialError::InvalidApiKey);
        }
        Ok(ApiKey { value })
    }

    /// The key.
    pub fn as_str(&self) -> (r: &str)
        ensures
            r@ == self@,
    {
        self.value.as_str()
    }
}

/// One saved key.
pub struct CredentialRecord {
    pub profile_id: String,
    pub endpoint_fingerprint: String,
    pub api_key: String,
}

/// One saved key by its values.
pub ghost struct CredentialRecordView {
    pub profile_id: Seq<char>,
    pub endpoint_fingerprint: Seq<char>,
    pub api_key: Seq<char>,
}

impl View for CredentialRecord {
    type V = CredentialRecordView;

    open spec fn view(&self) -> CredentialRecordView {
        CredentialRecordView {
            profile_id: self.profile_id@,
            endpoint_fingerprint: self.endpoint_fingerprint@,
            api_key: self.api_key@,
        }
    }
}

/// The content of the credential file.
pub struct CredentialFile {
    pub schema_version: u32,
    pub api_keys: Vec<CredentialRecord>,
}

/// Saved keys by their values.
pub open spec fn key_views(records: Seq<CredentialRecord>) -> Seq<CredentialRecordView> {
    records.map_values(|record: CredentialRecord| record@)
}

/// Whether a saved key is in order.
pub open spec fn usable_record(record: CredentialRecordView) -> bool {
    &&& valid_profile_name(record.profile_id)
    &&& is_digest(record.endpoint_fingerprint)
    &&& !is_blank(record.api_key)
}

/// Whether no profile has two keys.
pub open spec fn one_key_each(records: Seq<CredentialRecordView>) -> bool {
    forall|i: int, j: int|
        0 <= i < j < records.len() ==> (#[trigger] records[i]).profile_id != (
        #[trigger] records[j]).profile_id
}

/// Whether saved keys are in order.
pub open spec fn usable_keys(records: Seq<CredentialRecordView>) -> bool {
    &&& forall|i: int| 0 <= i < records.len() ==> usable_record(#[trigger] records[i])
    &&& one_key_each(records)
}

/// What reading the credential file gave.
pub enum CredentialContent {
    Absent,
    /// It could not be read safely, or does not parse.
    Unreadable,
    File(CredentialFile),
}

impl CredentialContent {
    /// What reading the file gave, by what stands at its path and what it decodes to: only a private
    /// file of the user is read.
    pub fn found(facts: Option<EntryFacts>, user: u32, decoded: Option<CredentialFile>) -> (r:
        CredentialContent)
        ensures
            r == (match facts {
                None => CredentialContent::Absent,
                Some(facts) => if file_fault(facts, user) is Some {
                    CredentialContent::Unreadable
                } else {
                    match decoded {
                        Some(file) => CredentialContent::File(file),
                        None => CredentialContent::Unreadable,
                    }
                },
            }),
    {
        match facts {
            None => CredentialContent::Absent,
            Some(facts) => match validate_private_file(facts, user) {
                Ok(()) => match decoded {
                    Some(file) => CredentialContent::File(file),
                    None => CredentialContent::Unreadable,
                },
                Err(_) => CredentialContent::Unreadable,
            },
        }
    }
}

/// The keys that a file holds; nothing where it cannot be used.
pub open spec fn saved_keys(content: CredentialContent) -> Option<Seq<CredentialRecordView>> {
    match content {
        CredentialContent::Absent => Some(Seq::empty()),
        CredentialContent::Unreadable => None,
        CredentialContent::File(file) => if file.schema_version == SCHEMA_VERSION && usable_keys(
            key_views(file.api_keys@),
        ) {
            Some(key_views(file.api_keys@))
        } else {
            None
        },
    }
}

fn is_fingerprint(text: &str) -> (r: bool)
    ensures
        r == is_digest(text@),
{
    let chars = to_chars(text);
    if chars.len() != 64 {
        return false;
    }
    let mut i: usize = 0;
    while i < chars.len()
        invariant
            i <= chars@.len(),
            chars@ == text@,
            chars@.len() == 64,
            forall|j: int| 0 <= j < i ==> is_lower_hex(#[trigger] chars@[j]),
        decreases chars@.len() - i,
    {
        let c = chars[i];
        if !(('0' <= c && c <= '9') || ('a' <= c && c <= 'f')) {
            proof {
                assert(!is_lower_hex(text@[i as int]));
            }
            return false;
        }
        i = i + 1;
    }
    true
}

/// Checks the content of the credential file.
fn load(content: CredentialContent) -> (r: Result<CredentialFile, ApiKeyCredentialError>)
    ensures
        match saved_keys(content) {
            Some(keys) => r matches Ok(file) && key_views(file.api_keys@) == keys
                && file.schema_version == SCHEMA_VERSION,
            None => r matches Err(error) && error == ApiKeyCredentialError::Unavailable,
        },
{
    let file = match content {
        CredentialContent::Absent => {
            let file = CredentialFile { schema_version: SCHEMA_VERSION, api_keys: Vec::new() };
            proof {
                assert(key_views(file.api_keys@) =~= Seq::<CredentialRecordView>::empty());
            }
            return Ok(file);
        },
        CredentialContent::Unreadable => {
            return Err(ApiKeyCredentialError::Unavailable);
        },
        CredentialContent::File(file) => file,
    };
    if file.schema_version != SCHEMA_VERSION {
        return Err(ApiKeyCredentialError::Unavailable);
    }
    let ghost views = key_views(file.api_keys@);
    let mut i: usize = 0;
    while i < file.api_keys.len()
        invariant
            i <= file.api_keys@.len(),
            views == key_views(file.api_keys@),
            saved_keys(content) == (if usable_keys(views) {
                Some(views)
            } else {
                None
            }),
            forall|j: int| 0 <= j < i ==> usable_record(#[trigger] views[j]),
            forall|j: int, k: int|
                0 <= j < k < i ==> (#[trigger] views[j]).profile_id != (
                #[trigger] views[k]).profile_id,
        decreases file.api_keys@.len() - i,
    {
        let record = &file.api_keys[i];
        proof {
            assert(views[i as int] == record@);
        }
        let named = match ProfileId::new(record.profile_id.as_str()) {
            Ok(_) => true,
            Err(_) => false,
        };
        if !named || !is_fingerprint(record.endpoint_fingerprint.as_str()) || blank(
            record.api_key.as_str(),
        ) {
            proof {
                assert(!usable_record(views[i as int]));
            }
            return Err(ApiKeyCredentialError::Unavailable);
        }
        let mut j: usize = 0;
        while j < i
            invariant
                j <= i < file.api_keys@.len(),
                *record == file.api_keys@[i as int],
                views == key_views(file.api_keys@),
                views[i as int] == record@,
                saved_keys(content) == (if usable_keys(views) {
                    Some(views)
                } else {
                    None
                }),
                forall|k: int|
                    0 <= k < j ==> (#[trigger] views[k]).profile_id != views[i as int].profile_id,
            decreases i - j,
        {
            proof {
                assert(views[j as int] == file.api_keys@[j as int]@);
            }
            if same_text(file.api_keys[j].profile_id.as_str(), record.profile_id.as_str()) {
                proof {
                    assert(views[j as int].profile_id == views[i as int].profile_id);
                }
                return Err(ApiKeyCredentialError::Unavailable);
            }
            j = j + 1;
        }
        i = i + 1;
    }
    Ok(file)
}

/// Text without slashes at its end.
fn trim_slashes(text: &str) -> (r: String)
    ensures
        r@ == without_slashes(text@),
{
    let chars = to_chars(text);
    let mut end: usize = chars.len();
    proof {
        assert(chars@.take(end as int) =~= text@);
    }
    while end > 0 && chars[end - 1] == '/'
        invariant
            end <= chars@.len(),
            without_slashes(text@) == without_slashes(chars@.take(end as int)),
        decreases end,
    {
        proof {
            assert(chars@.take(end as int).drop_last() =~= chars@.take(end - 1));
        }
        end = end - 1;
    }
    let r = from_chars(&chars, 0, end);
    proof {
        assert(r@ =~= chars@.take(end as int));
    }
    r
}

/// The name of a protocol.
pub open spec fn protocol_name(protocol: Protocol) -> Seq<char> {
    match protocol {
        Protocol::ChatGptSubscription => "chatgpt-subscription"@,
        Protocol::OpenAiResponses => "openai-responses"@,
        Protocol::OpenAiChatCompletions => "openai-chat-completions"@,
        Protocol::AnthropicMessages => "anthropic-messages"@,
    }
}

/// The name of a protocol.
pub fn profile_description(endpoint: &EndpointConfig) -> (r: &'static str)
    ensures
        r@ == protocol_name(endpoint.protocol),
{
    match endpoint.protocol {
        Protocol::ChatGptSubscription => "chatgpt-subscription",
        Protocol::OpenAiResponses => "openai-responses",
        Protocol::OpenAiChatCompletions => "openai-chat-completions",
        Protocol::AnthropicMessages => "anthropic-messages",
    }
}

/// The place that an endpoint stands for, without what does not matter: its protocol, and its URL
/// in normal form without slashes at the end of its path. A URL that is too long for its path to be
/// set stands for none.
pub open spec fn endpoint_text(endpoint: EndpointConfig) -> Option<Seq<char>> {
    match endpoint.base_url {
        None => Some(protocol_name(endpoint.protocol) + "|official"@),
        Some(base_url) => match (url_path_of(base_url@), url_front_of(base_url@)) {
            (Some(path), Some(front)) => if byte_count(front) > MAX_URL_BYTES {
                None
            } else {
                match url_with_path_of(base_url@, without_slashes(path)) {
                    None => None,
                    Some(url) => Some(
                        protocol_name(endpoint.protocol) + "|"@ + without_slashes(url),
                    ),
                }
            },
            _ => None,
        },
    }
}

/// The fingerprint of an endpoint, which a key is saved under.
pub open spec fn fingerprint_of(endpoint: EndpointConfig) -> Option<Seq<char>> {
    match endpoint_text(endpoint) {
        Some(text) => Some(
            sha256_hex_of(encode_utf8("bone-api-key-slot-v1"@) + encode_utf8(text)),
        ),
        None => None,
    }
}

/// The fingerprint of an endpoint.
pub fn endpoint_fingerprint(endpoint: &EndpointConfig) -> (r: Result<String, ApiKeyCredentialError>)
    ensures
        match fingerprint_of(*endpoint) {
            Some(text) => r matches Ok(found) && found@ == text && is_digest(found@),
            None => r matches Err(error) && error == ApiKeyCredentialError::Unavailable,
        },
{
    let mut text = profile_description(endpoint).to_owned();
    match &endpoint.base_url {
        Some(base_url) => {
            let path = match url_path(base_url.as_str()) {
                Some(path) => trim_slashes(path.as_str()),
                None => {
                    return Err(ApiKeyCredentialError::Unavailable);
                },
            };
            match url_front(base_url.as_str()) {
                Some(front) => {
                    if byte_len(front.as_str()) as u64 > MAX_URL_BYTES as u64 {
                        return Err(ApiKeyCredentialError::Unavailable);
                    }
                },
                None => {
                    return Err(ApiKeyCredentialError::Unavailable);
                },
            }
            match url_with_path(base_url.as_str(), path.as_str()) {
                Some(url) => {
                    text.push_str("|");
                    text.push_str(trim_slashes(url.as_str()).as_str());
                },
                None => {
                    return Err(ApiKeyCredentialError::Unavailable);
                },
            }
        },
        None => {
            text.push_str("|official");
        },
    }
    let mut bytes: Vec<u8> = Vec::new();
    append_bytes(&mut bytes, "bone-api-key-slot-v1".as_bytes());
    append_bytes(&mut bytes, text.as_str().as_bytes());
    proof {
        assert(bytes@ =~= encode_utf8("bone-api-key-slot-v1"@) + encode_utf8(text@));
    }
    Ok(sha256_hex(bytes.as_slice()))
}

/// The place of a profile's key.
pub struct ApiKeyCredentials {
    pub path: FilePath,
    pub lock_path: FilePath,
    pub profile_id: String,
    pub endpoint_fingerprint: String,
}

/// Whether a record is the one of a profile.
pub open spec fn first_key(records: Seq<CredentialRecordView>, profile: Seq<char>, index: int) -> bool {
    &&& 0 <= index < records.len()
    &&& records[index].profile_id == profile
    &&& forall|i: int| 0 <= i < index ==> (#[trigger] records[i]).profile_id != profile
}

/// Whether a profile has a key.
pub open spec fn has_key(records: Seq<CredentialRecordView>, profile: Seq<char>) -> bool {
    exists|i: int| first_key(records, profile, i)
}

/// The key of a profile.
pub open spec fn key_of(records: Seq<CredentialRecordView>, profile: Seq<char>) -> CredentialRecordView {
    records[choose|i: int| first_key(records, profile, i)]
}

/// Saved keys with one for a profile: in place of the one it has, else behind all.
pub open spec fn with_key(records: Seq<CredentialRecordView>, record: CredentialRecordView) -> Seq<
    CredentialRecordView,
> {
    if has_key(records, record.profile_id) {
        records.update(choose|i: int| first_key(records, record.profile_id, i), record)
    } else {
        records.push(record)
    }
}

/// Whether a record is of another profile.
pub open spec fn of_other(profile: Seq<char>) -> spec_fn(CredentialRecordView) -> bool {
    |record: CredentialRecordView| record.profile_id != profile
}

/// Saved keys without those of a profile.
pub open spec fn without_key(records: Seq<CredentialRecordView>, profile: Seq<char>) -> Seq<
    CredentialRecordView,
> {
    records.filter(of_other(profile))
}

/// There is one first key of a profile at most.
proof fn lemma_first_key(records: Seq<CredentialRecordView>, profile: Seq<char>, index: int)
    requires
        first_key(records, profile, index),
    ensures
        (choose|i: int| first_key(records, profile, i)) == index,
{
    let other = choose|i: int| first_key(records, profile, i);
    if other < index {
        assert(records[other].profile_id == profile);
    } else if other > index {
        assert(records[index].profile_id == profile);
    }
}

fn find_key(records: &Vec<CredentialRecord>, profile: &str) -> (r: Option<usize>)
    ensures
        match r {
            Some(i) => first_key(key_views(records@), profile@, i as int) && i < records@.len(),
            None => !has_key(key_views(records@), profile@),
        },
{
    let ghost views = key_views(records@);
    let mut i: usize = 0;
    while i < records.len()
        invariant
            i <= records@.len(),
            views == key_views(records@),
            forall|j: int| 0 <= j < i ==> (#[trigger] views[j]).profile_id != profile@,
        decreases records@.len() - i,
    {
        proof {
            assert(views[i as int] == records@[i as int]@);
        }
        if same_text(records[i].profile_id.as_str(), profile) {
            return Some(i);
        }
        i = i + 1;
    }
    None
}

/// Whether saving a key has this outcome: the file with the key, unless the file cannot be used.
pub open spec fn saves_key(
    credentials: ApiKeyCredentials,
    content: CredentialContent,
    key: Seq<char>,
    r: Result<CredentialFile, ApiKeyCredentialError>,
) -> bool {
    match saved_keys(content) {
        Some(keys) => {
            &&& r matches Ok(file)
            &&& file.schema_version == SCHEMA_VERSION
            &&& key_views(file.api_keys@) == with_key(keys, credentials.record(key))
        },
        None => r matches Err(error) && error == ApiKeyCredentialError::Unavailable,
    }
}

/// Whether reading the saved key has this outcome: there has to be one, and it has to be saved for
/// this endpoint.
pub open spec fn reads_key(
    credentials: ApiKeyCredentials,
    content: CredentialContent,
    r: Result<ApiKey, ApiKeyCredentialError>,
) -> bool {
    match saved_keys(content) {
        None => r matches Err(error) && error == ApiKeyCredentialError::Unavailable,
        Some(keys) => if !has_key(keys, credentials.profile_id@) {
            r matches Err(error) && error == ApiKeyCredentialError::MissingApiKey
        } else if key_of(keys, credentials.profile_id@).endpoint_fingerprint
            != credentials.endpoint_fingerprint@ {
            r matches Err(error) && error == ApiKeyCredentialError::EndpointMismatch
        } else if is_blank(key_of(keys, credentials.profile_id@).api_key) {
            r matches Err(error) && error == ApiKeyCredentialError::InvalidApiKey
        } else {
            r matches Ok(key) && key@ == key_of(keys, credentials.profile_id@).api_key
        },
    }
}

/// Whether clearing the saved key has this outcome: the file without it, or nothing where there is
/// no file.
pub open spec fn clears_key(
    credentials: ApiKeyCredentials,
    content: CredentialContent,
    r: Result<Option<CredentialFile>, ApiKeyCredentialError>,
) -> bool {
    match saved_keys(content) {
        None => r matches Err(error) && error == ApiKeyCredentialError::Unavailable,
        Some(keys) => if content is Absent {
            r matches Ok(None)
        } else {
            &&& r matches Ok(Some(file))
            &&& file.schema_version == SCHEMA_VERSION
            &&& key_views(file.api_keys@) == without_key(keys, credentials.profile_id@)
        },
    }
}

impl ApiKeyCredentials {
    /// The record that saving a key writes.
    pub open spec fn record(self, key: Seq<char>) -> CredentialRecordView {
        CredentialRecordView {
            profile_id: self.profile_id@,
            endpoint_fingerprint: self.endpoint_fingerprint@,
            api_key: key,
        }
    }

    /// The place of a profile's key in a home directory.
    pub fn for_profile(bone_home: &FilePath, profile: &Profile) -> (r: Result<
        ApiKeyCredentials,
        ApiKeyCredentialError,
    >)
        ensures
            if profile.problem() is Some || !absolute(bone_home@) || fingerprint_of(
                profile.endpoint,
            ) is None {
                r matches Err(error) && error == ApiKeyCredentialError::Unavailable
            } else {
                &&& r matches Ok(credentials)
                &&& credentials.path@ == joined(bone_home@, encode_utf8("credentials.toml"@))
                &&& credentials.lock_path@ == joined(bone_home@, encode_utf8("credentials.lock"@))
                &&& credentials.profile_id@ == profile.id@
                &&& Some(credentials.endpoint_fingerprint@) == fingerprint_of(profile.endpoint)
                &&& is_digest(credentials.endpoint_fingerprint@)
            },
    {
        match profile.validate() {
            Ok(_) => {},
            Err(_) => {
                return Err(ApiKeyCredentialError::Unavailable);
            },
        }
        if !bone_home.is_absolute() {
            return Err(ApiKeyCredentialError::Unavailable);
        }
        let fingerprint = match endpoint_fingerprint(&profile.endpoint) {
            Ok(fingerprint) => fingerprint,
            Err(error) => {
                return Err(error);
            },
        };
        Ok(
            ApiKeyCredentials {
                path: bone_home.join(&FilePath::from_text("credentials.toml")),
                lock_path: bone_home.join(&FilePath::from_text("credentials.lock")),
                profile_id: profile.id.as_str().to_owned(),
                endpoint_fingerprint: fingerprint,
            },
        )
    }

    /// The file with a key saved, to be written in place of `content`.
    pub fn save(&self, content: CredentialContent, api_key: &ApiKey) -> (r: Result<
        CredentialFile,
        ApiKeyCredentialError,
    >)
        ensures
            saves_key(*self, content, api_key@, r),
    {
        let mut file = match load(content) {
            Ok(file) => file,
            Err(error) => {
                return Err(error);
            },
        };
        let ghost keys = key_views(file.api_keys@);
        let record = CredentialRecord {
            profile_id: self.profile_id.clone(),
            endpoint_fingerprint: self.endpoint_fingerprint.clone(),
            api_key: api_key.as_str().to_owned(),
        };
        let ghost added = record@;
        match find_key(&file.api_keys, self.profile_id.as_str()) {
            Some(i) => {
                proof {
                    lemma_first_key(keys, self.profile_id@, i as int);
                }
                file.api_keys.set(i, record);
                proof {
                    assert(key_views(file.api_keys@) =~= keys.update(i as int, added));
                }
            },
            None => {
                file.api_keys.push(record);
                proof {
                    assert(key_views(file.api_keys@) =~= keys.push(added));
                }
            },
        }
        Ok(file)
    }

    /// The saved key: there has to be one, and it has to be saved for this endpoint.
    pub fn read(&self, content: CredentialContent) -> (r: Result<ApiKey, ApiKeyCredentialError>)
        ensures
            reads_key(*self, content, r),
    {
        let file = match load(content) {
            Ok(file) => file,
            Err(error) => {
                return Err(error);
            },
        };
        let ghost keys = key_views(file.api_keys@);
        match find_key(&file.api_keys, self.profile_id.as_str()) {
            Some(i) => {
                proof {
                    lemma_first_key(keys, self.profile_id@, i as int);
                    assert(keys[i as int] == file.api_keys@[i as int]@);
                }
                let record = &file.api_keys[i];
                if !same_text(
                    record.endpoint_fingerprint.as_str(),
                    self.endpoint_fingerprint.as_str(),
                ) {
                    return Err(ApiKeyCredentialError::EndpointMismatch);
                }
                ApiKey::new(record.api_key.clone())
            },
            None => Err(ApiKeyCredentialError::MissingApiKey),
        }
    }

    /// The file without this profile's key, to be written in place of `content`; nothing where
    /// there is no file.
    pub fn clear(&self, content: CredentialContent) -> (r: Result<
        Option<CredentialFile>,
        ApiKeyCredentialError,
    >)
        ensures
            clears_key(*self, content, r),
    {
        let absent = match &content {
            CredentialContent::Absent => true,
            _ => false,
        };
        let file = match load(content) {
            Ok(file) => file,
            Err(error) => {
                return Err(error);
            },
        };
        if absent {
            return Ok(None);
        }
        let ghost keys = key_views(file.api_keys@);
        let ghost keep = of_other(self.profile_id@);
        let mut kept: Vec<CredentialRecord> = Vec::new();
        let mut i: usize = 0;
        proof {
            crate::seqs::lemma_filter_none(keys, keep);
            assert(key_views(kept@) =~= Seq::<CredentialRecordView>::empty());
        }
        while i < file.api_keys.len()
            invariant
                i <= file.api_keys@.len(),
                keys == key_views(file.api_keys@),
                keep == of_other(self.profile_id@),
                key_views(kept@) == keys.take(i as int).filter(keep),
            decreases file.api_keys@.len() - i,
        {
            let record = &file.api_keys[i];
            proof {
                assert(keys[i as int] == record@);
                crate::seqs::lemma_filter_step(keys, i as int, keep);
            }
            if !same_text(record.profile_id.as_str(), self.profile_id.as_str()) {
                let ghost earlier = key_views(kept@);
                kept.push(
                    CredentialRecord {
                        profile_id: record.profile_id.clone(),
                        endpoint_fingerprint: record.endpoint_fingerprint.clone(),
                        api_key: record.api_key.clone(),
                    },
                );
                proof {
                    assert(key_views(kept@) =~= earlier.push(keys[i as int]));
                }
            }
            i = i + 1;
        }
        proof {
            crate::seqs::lemma_take_all(keys);
        }
        Ok(Some(CredentialFile { schema_version: SCHEMA_VERSION, api_keys: kept }))
    }
}

/// Why the subscription's cache cannot be used.
#[derive(Clone, Copy, Debug, PartialEq, Eq, Structural)]
pub enum CredentialError {
    Unavailable,
}

/// The place of the subscription's cache.
#[derive(Debug, PartialEq, Eq)]
pub struct ChatGptCredentials {
    pub config_root: FilePath,
}

/// The directory of the provider caches.
pub open spec fn providers_directory(config_root: Seq<u8>) -> Seq<u8> {
    joined(config_root, encode_utf8("providers"@))
}

/// The directory of the subscription's cache.
pub open spec fn cache_directory(config_root: Seq<u8>) -> Seq<u8> {
    joined(providers_directory(config_root), encode_utf8("chatgpt-subscription"@))
}

impl ChatGptCredentials {
    /// The cache in an absolute configuration directory.
    pub fn at(config_root: FilePath) -> (r: Result<ChatGptCredentials, CredentialError>)
        ensures
            if absolute(config_root@) {
                r matches Ok(credentials) && credentials.config_root == config_root
            } else {
                r matches Err(error) && error == CredentialError::Unavailable
            },
    {
        if !config_root.is_absolute() {
            return Err(CredentialError::Unavailable);
        }
        Ok(ChatGptCredentials { config_root })
    }

    /// The directories that have to be private, the outermost first.
    pub fn directories(&self) -> (r: Vec<FilePath>)
        ensures
            r@.len() == 3,
            r@[0]@ == self.config_root@,
            r@[1]@ == providers_directory(self.config_root@),
            r@[2]@ == cache_directory(self.config_root@),
    {
        let providers = self.config_root.join(&FilePath::from_text("providers"));
        let directory = providers.join(&FilePath::from_text("chatgpt-subscription"));
        let mut r: Vec<FilePath> = Vec::new();
        r.push(self.config_root.copy());
        r.push(providers);
        r.push(directory);
        r
    }

    /// The cache file, where its directories and the file itself were found to be private.
    pub fn auth_file(&self, is_private: bool) -> (r: Result<FilePath, CredentialError>)
        ensures
            if is_private {
                r matches Ok(path) && path@ == joined(
                    cache_directory(self.config_root@),
                    encode_utf8("auth.json"@),
                )
            } else {
                r matches Err(error) && error == CredentialError::Unavailable
            },
    {
        if !is_private {
            return Err(CredentialError::Unavailable);
        }
        let providers = self.config_root.join(&FilePath::from_text("providers"));
        let directory = providers.join(&FilePath::from_text("chatgpt-subscription"));
        Ok(directory.join(&FilePath::from_text("auth.json")))
    }
}

/// A saved key is read back for its own endpoint, and for no other one.
pub proof fn law_saved_key_is_read_back(
    records: Seq<CredentialRecordView>,
    record: CredentialRecordView,
)
    ensures
        has_key(with_key(records, record), record.profile_id),
        key_of(with_key(records, record), record.profile_id) == record,
{
    let after = with_key(records, record);
    if has_key(records, record.profile_id) {
        let i = choose|i: int| first_key(records, record.profile_id, i);
        assert(first_key(after, record.profile_id, i));
        lemma_first_key(after, record.profile_id, i);
    } else {
        let n = records.len() as int;
        assert forall|i: int| 0 <= i < n implies (#[trigger] after[i]).profile_id
            != record.profile_id by {
            if after[i].profile_id == record.profile_id {
                lemma_key_exists(records, record.profile_id, i);
            }
        }
        assert(first_key(after, record.profile_id, n));
        lemma_first_key(after, record.profile_id, n);
    }
}

/// A profile that occurs has a first key.
pub proof fn lemma_key_exists(records: Seq<CredentialRecordView>, profile: Seq<char>, at: int)
    requires
        0 <= at < records.len(),
        records[at].profile_id == profile,
    ensures
        has_key(records, profile),
    decreases at,
{
    if forall|i: int| 0 <= i < at ==> (#[trigger] records[i]).profile_id != profile {
        assert(first_key(records, profile, at));
    } else {
        let i = choose|i: int| 0 <= i < at && (#[trigger] records[i]).profile_id == profile;
        lemma_key_exists(records, profile, i);
    }
}

/// Saving a key leaves the keys of other profiles as they are.
pub proof fn law_saving_keeps_other_keys(
    records: Seq<CredentialRecordView>,
    record: CredentialRecordView,
    other: Seq<char>,
)
    requires
        other != record.profile_id,
        has_key(records, other),
    ensures
        has_key(with_key(records, record), other),
        key_of(with_key(records, record), other) == key_of(records, other),
{
    let after = with_key(records, record);
    let k = choose|k: int| first_key(records, other, k);
    if has_key(records, record.profile_id) {
        let i = choose|i: int| first_key(records, record.profile_id, i);
        assert forall|j: int| 0 <= j < k implies (#[trigger] after[j]).profile_id != other by {
            assert(records[j].profile_id != other);
        }
        assert(first_key(after, other, k));
    } else {
        assert forall|j: int| 0 <= j < k implies (#[trigger] after[j]).profile_id != other by {
            assert(records[j].profile_id != other);
        }
        assert(first_key(after, other, k));
    }
    lemma_first_key(after, other, k);
}

/// A file stays in order when a usable key is saved in it.
pub proof fn law_saved_file_stays_usable(
    records: Seq<CredentialRecordView>,
    record: CredentialRecordView,
)
    requires
        usable_keys(records),
        usable_record(record),
    ensures
        usable_keys(with_key(records, record)),
{
    let after = with_key(records, record);
    if has_key(records, record.profile_id) {
        let k = choose|i: int| first_key(records, record.profile_id, i);
        assert forall|i: int, j: int| 0 <= i < j < after.len() implies (
        #[trigger] after[i]).profile_id != (#[trigger] after[j]).profile_id by {
            assert(records[i].profile_id != records[j].profile_id);
        }
    } else {
        assert forall|i: int, j: int| 0 <= i < j < after.len() implies (
        #[trigger] after[i]).profile_id != (#[trigger] after[j]).profile_id by {
            if j == records.len() {
                if records[i].profile_id == record.profile_id {
                    lemma_key_exists(records, record.profile_id, i);
                }
            } else {
                assert(records[i].profile_id != records[j].profile_id);
            }
        }
    }
}

/// A cleared key is gone.
pub proof fn law_cleared_key_is_gone(records: Seq<CredentialRecordView>, profile: Seq<char>)
    ensures
        !has_key(without_key(records, profile), profile),
{
    let after = without_key(records, profile);
    if has_key(after, profile) {
        let i = choose|i: int| first_key(after, profile, i);
        crate::seqs::lemma_filter_keeps(records, of_other(profile), i);
    }
}

} // verus!
