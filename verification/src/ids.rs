//! Identities: 128-bit UUIDs, by their value.

use vstd::prelude::*;

verus! {

/// The lower-case hexadecimal digit of `d`.
pub open spec fn hex_digit(d: nat) -> char {
    if d < 10 {
        (48 + d) as char
    } else {
        (87 + d) as char
    }
}

/// Sixteen to the power `n`.
pub open spec fn pow16(n: nat) -> nat
    decreases n,
{
    if n == 0 {
        1
    } else {
        16 * pow16((n - 1) as nat)
    }
}

/// The hexadecimal digit of `value` with `n` digits behind it.
pub open spec fn nibble(value: u128, n: nat) -> nat {
    (value as nat) / pow16(n) % 16
}

/// The hyphenated lower-case form of a UUID, in groups of 8, 4, 4, 4 and 12 digits.
pub open spec fn hyphenated(value: u128) -> Seq<char> {
    Seq::new(
        36,
        |i: int|
            if i == 8 || i == 13 || i == 18 || i == 23 {
                '-'
            } else {
                let skipped = (if i > 8 { 1int } else { 0 }) + (if i > 13 { 1int } else { 0 }) + (
                if i > 18 { 1int } else { 0 }) + (if i > 23 { 1int } else { 0 });
                hex_digit(nibble(value, (31 - (i - skipped)) as nat))
            },
    )
}

/// What `uuid::Uuid::parse_str` reads from a text: the value of the UUID, or nothing where the
/// text is none.
pub uninterp spec fn parsed_uuid(text: Seq<char>) -> Option<u128>;

/// A new random identity.
///
/// Trusted: `uuid::Uuid::new_v4` sets the version and variant bits of a random number, so the
/// result is never the nil UUID. Nothing else is said of it.
#[verifier::external_body]
fn random_uuid() -> (value: u128)
    ensures
        value != 0,
{
    uuid::Uuid::new_v4().as_u128()
}

/// The text of a UUID.
///
/// Trusted: `uuid::Uuid`'s `Display` writes the hyphenated lower-case form.
#[verifier::external_body]
pub(crate) fn uuid_text(value: u128) -> (text: String)
    ensures
        text@ == hyphenated(value),
{
    uuid::Uuid::from_u128(value).to_string()
}

/// The UUID that a text holds.
///
/// Trusted: `uuid::Uuid::parse_str` depends on the text alone, and reads a UUID's own hyphenated
/// form back as that UUID.
#[verifier::external_body]
pub(crate) fn parse_uuid(text: &str) -> (value: Option<u128>)
    ensures
        value == parsed_uuid(text@),
        forall|v: u128| text@ == #[trigger] hyphenated(v) ==> value == Some(v),
{
    match uuid::Uuid::parse_str(text) {
        Ok(parsed) => Some(parsed.as_u128()),
        Err(_) => None,
    }
}

/// A text that is no UUID.
#[derive(Clone, Copy, Debug, PartialEq, Eq, Structural)]
pub enum IdError {
    NotUuid,
}

/// The identity of a workspace.
#[derive(Clone, Copy, Debug, PartialEq, Eq, PartialOrd, Ord, Hash, Structural)]
pub struct WorkspaceId(pub u128);

impl WorkspaceId {
    /// A new random identity; it is never nil.
    pub fn new() -> (id: WorkspaceId)
        ensures
            id.0 != 0,
    {
        WorkspaceId(random_uuid())
    }

    /// The identity with the given UUID value.
    pub fn from_uuid(value: u128) -> (id: WorkspaceId)
        ensures
            id.0 == value,
    {
        WorkspaceId(value)
    }

    /// The UUID value of this identity.
    pub fn as_uuid(self) -> (value: u128)
        ensures
            value == self.0,
    {
        self.0
    }

    /// Whether this is the nil identity, which names nothing.
    pub fn is_nil(self) -> (r: bool)
        ensures
            r == (self.0 == 0),
    {
        self.0 == 0
    }

    /// The identity that a text names.
    pub fn parse_str(value: &str) -> (r: Result<WorkspaceId, IdError>)
        ensures
            r == (match parsed_uuid(value@) {
                Some(id) => Ok(WorkspaceId(id)),
                None => Err(IdError::NotUuid),
            }),
            forall|id: u128|
                value@ == #[trigger] hyphenated(id) ==> r == Ok::<WorkspaceId, IdError>(WorkspaceId(id)),
    {
        match parse_uuid(value) {
            Some(id) => Ok(WorkspaceId(id)),
            None => Err(IdError::NotUuid),
        }
    }

    /// The hyphenated text of this identity.
    pub fn text(self) -> (text: String)
        ensures
            text@ == hyphenated(self.0),
    {
        uuid_text(self.0)
    }
}

impl Default for WorkspaceId {
    fn default() -> (id: WorkspaceId)
        ensures
            id.0 != 0,
    {
        WorkspaceId::new()
    }
}

/// The identity of a session.
#[derive(Clone, Copy, Debug, PartialEq, Eq, PartialOrd, Ord, Hash, Structural)]
pub struct SessionId(pub u128);

impl SessionId {
    /// A new random identity; it is never nil.
    pub fn new() -> (id: SessionId)
        ensures
            id.0 != 0,
    {
        SessionId(random_uuid())
    }

    /// The identity with the given UUID value.
    pub fn from_uuid(value: u128) -> (id: SessionId)
        ensures
            id.0 == value,
    {
        SessionId(value)
    }

    /// The UUID value of this identity.
    pub fn as_uuid(self) -> (value: u128)
        ensures
            value == self.0,
    {
        self.0
    }

    /// Whether this is the nil identity, which names nothing.
    pub fn is_nil(self) -> (r: bool)
        ensures
            r == (self.0 == 0),
    {
        self.0 == 0
    }

    /// The identity that a text names.
    pub fn parse_str(value: &str) -> (r: Result<SessionId, IdError>)
        ensures
            r == (match parsed_uuid(value@) {
                Some(id) => Ok(SessionId(id)),
                None => Err(IdError::NotUuid),
            }),
            forall|id: u128|
                value@ == #[trigger] hyphenated(id) ==> r == Ok::<SessionId, IdError>(SessionId(id)),
    {
        match parse_uuid(value) {
            Some(id) => Ok(SessionId(id)),
            None => Err(IdError::NotUuid),
        }
    }

    /// The hyphenated text of this identity.
    pub fn text(self) -> (text: String)
        ensures
            text@ == hyphenated(self.0),
    {
        uuid_text(self.0)
    }
}

impl Default for SessionId {
    fn default() -> (id: SessionId)
        ensures
            id.0 != 0,
    {
        SessionId::new()
    }
}

/// The idempotency key of one submission.
#[derive(Clone, Copy, Debug, PartialEq, Eq, PartialOrd, Ord, Hash, Structural)]
pub struct RequestId(pub u128);

impl RequestId {
    /// A new random identity; it is never nil.
    pub fn new() -> (id: RequestId)
        ensures
            id.0 != 0,
    {
        RequestId(random_uuid())
    }

    /// The identity with the given UUID value.
    pub fn from_uuid(value: u128) -> (id: RequestId)
        ensures
            id.0 == value,
    {
        RequestId(value)
    }

    /// The UUID value of this identity.
    pub fn as_uuid(self) -> (value: u128)
        ensures
            value == self.0,
    {
        self.0
    }

    /// The hyphenated text of this identity.
    pub fn text(self) -> (text: String)
        ensures
            text@ == hyphenated(self.0),
    {
        uuid_text(self.0)
    }
}

impl Default for RequestId {
    fn default() -> (id: RequestId)
        ensures
            id.0 != 0,
    {
        RequestId::new()
    }
}

/// The identity of one agent runtime.
#[derive(Clone, Copy, Debug, PartialEq, Eq, PartialOrd, Ord, Hash, Structural)]
pub struct RuntimeId(pub u128);

impl RuntimeId {
    /// A new random identity; it is never nil.
    pub fn new() -> (id: RuntimeId)
        ensures
            id.0 != 0,
    {
        RuntimeId(random_uuid())
    }

    /// The identity with the given UUID value.
    pub fn from_uuid(value: u128) -> (id: RuntimeId)
        ensures
            id.0 == value,
    {
        RuntimeId(value)
    }

    /// The UUID value of this identity.
    pub fn as_uuid(self) -> (value: u128)
        ensures
            value == self.0,
    {
        self.0
    }

    /// The hyphenated text of this identity.
    pub fn text(self) -> (text: String)
        ensures
            text@ == hyphenated(self.0),
    {
        uuid_text(self.0)
    }
}

impl Default for RuntimeId {
    fn default() -> (id: RuntimeId)
        ensures
            id.0 != 0,
    {
        RuntimeId::new()
    }
}

/// The idempotency key of one acceptance.
#[derive(Clone, Copy, Debug, PartialEq, Eq, PartialOrd, Ord, Hash, Structural)]
pub struct AcceptanceRequestId(pub u128);

impl AcceptanceRequestId {
    /// A new random identity; it is never nil.
    pub fn new() -> (id: AcceptanceRequestId)
        ensures
            id.0 != 0,
    {
        AcceptanceRequestId(random_uuid())
    }

    /// The identity with the given UUID value.
    pub fn from_uuid(value: u128) -> (id: AcceptanceRequestId)
        ensures
            id.0 == value,
    {
        AcceptanceRequestId(value)
    }

    /// The UUID value of this identity.
    pub fn as_uuid(self) -> (value: u128)
        ensures
            value == self.0,
    {
        self.0
    }

    /// The hyphenated text of this identity.
    pub fn text(self) -> (text: String)
        ensures
            text@ == hyphenated(self.0),
    {
        uuid_text(self.0)
    }
}

impl Default for AcceptanceRequestId {
    fn default() -> (id: AcceptanceRequestId)
        ensures
            id.0 != 0,
    {
        AcceptanceRequestId::new()
    }
}

/// The identity of a recorded acceptance.
#[derive(Clone, Copy, Debug, PartialEq, Eq, PartialOrd, Ord, Hash, Structural)]
pub struct AcceptanceId(pub u128);

impl AcceptanceId {
    /// A new random identity; it is never nil.
    pub fn new() -> (id: AcceptanceId)
        ensures
            id.0 != 0,
    {
        AcceptanceId(random_uuid())
    }

    /// The identity with the given UUID value.
    pub fn from_uuid(value: u128) -> (id: AcceptanceId)
        ensures
            id.0 == value,
    {
        AcceptanceId(value)
    }

    /// The UUID value of this identity.
    pub fn as_uuid(self) -> (value: u128)
        ensures
            value == self.0,
    {
        self.0
    }

    /// The hyphenated text of this identity.
    pub fn text(self) -> (text: String)
        ensures
            text@ == hyphenated(self.0),
    {
        uuid_text(self.0)
    }
}

impl Default for AcceptanceId {
    fn default() -> (id: AcceptanceId)
        ensures
            id.0 != 0,
    {
        AcceptanceId::new()
    }
}

} // verus!
