//! The addresses of documents in the store. They are part of its format on disk.

use vstd::arithmetic::div_mod::{
    lemma_basic_div, lemma_div_denominator, lemma_fundamental_div_mod,
};
use vstd::prelude::*;

use crate::api::{CallRef, EvidenceRef, InputId, ResultRef, SessionSeq};
use crate::config::ConfigScope;
use crate::error::StoreError;
use crate::ids::{
    hex_digit, hyphenated, nibble, parse_uuid, parsed_uuid, pow16, uuid_text, AcceptanceId,
    AcceptanceRequestId, RequestId, SessionId, WorkspaceId,
};
use crate::text::{
    decimal, decimal_string, digit, from_chars, padded, padded_string, same_text, to_chars,
};

verus! {

/// What is stored under an address.
#[derive(Clone, Copy, Debug, PartialEq, Eq, Structural)]
pub enum Address {
    Workspaces,
    Session(SessionId),
    Input(SessionId, InputId),
    Request(SessionId, RequestId),
    AcceptanceRequest(SessionId, AcceptanceRequestId),
    ResultProjection(SessionId),
    EvidenceProjection(SessionId),
    EvidenceSource(EvidenceRef),
    EvidenceMetadata(EvidenceRef),
    EvidenceBody(EvidenceRef, u64),
    Result(ResultRef),
    AttentionProjection,
    AttentionInput(WorkspaceId, SessionId, InputId),
    AttentionWrite(WorkspaceId, CallRef),
    Acceptance(ResultRef, SessionSeq, AcceptanceId),
    Config(ConfigScope),
    Profiles,
    Write(WorkspaceId, CallRef),
    WriteResolution(WorkspaceId, CallRef),
    Core(SessionId),
    CoreChunk(SessionId, u64),
    CoreRecord(SessionId, u64),
    CoreCall(SessionId, u64),
    /// The journal of a session.
    Journal(SessionId),
    /// The lease of a session's writer.
    Lease(SessionId),
}

/// The number of a piece of a text, in at least six digits.
pub open spec fn piece_number(index: nat) -> Seq<char> {
    if index < 1000000 {
        padded(index, 6)
    } else {
        decimal(index)
    }
}

impl Address {
    /// The text of an address.
    pub open spec fn text(self) -> Seq<char> {
        match self {
            Address::Workspaces => "workspaces"@,
            Address::Session(id) => "session/"@ + hyphenated(id.0),
            Address::Input(session, input) => input_prefix(session) + padded(input.0 as nat, 20),
            Address::Request(session, request) => "request/"@ + hyphenated(session.0) + "/"@
                + hyphenated(request.0),
            Address::AcceptanceRequest(session, request) => "acceptance-request/"@ + hyphenated(
                session.0,
            ) + "/"@ + hyphenated(request.0),
            Address::ResultProjection(session) => "result-projection/"@ + hyphenated(session.0),
            Address::EvidenceProjection(session) => "evidence-projection/"@ + hyphenated(
                session.0,
            ),
            Address::EvidenceSource(source) => "evidence-source/"@ + hyphenated(source.session.0)
                + "/"@ + decimal(source.record as nat),
            Address::EvidenceMetadata(source) => "evidence-metadata/"@ + hyphenated(
                source.session.0,
            ) + "/"@ + decimal(source.record as nat),
            Address::EvidenceBody(source, index) => "evidence-body/"@ + hyphenated(
                source.session.0,
            ) + "/"@ + decimal(source.record as nat) + ":"@ + piece_number(index as nat),
            Address::Result(result) => "result/"@ + hyphenated(result.session.0) + "/"@ + padded(
                result.version.0 as nat,
                20,
            ),
            Address::AttentionProjection => "attention-projection"@,
            Address::AttentionInput(workspace, session, input) => "attention/"@ + hyphenated(
                workspace.0,
            ) + "/input/"@ + hyphenated(session.0) + "/"@ + padded(input.0 as nat, 20),
            Address::AttentionWrite(workspace, call) => "attention/"@ + hyphenated(workspace.0)
                + "/write/"@ + hyphenated(call.runtime.0) + "/"@ + padded(call.id as nat, 20),
            Address::Acceptance(result, saved_at, id) => "acceptance/"@ + hyphenated(
                result.session.0,
            ) + "/"@ + padded(result.version.0 as nat, 20) + "/"@ + padded(saved_at.0 as nat, 20)
                + "/"@ + hyphenated(id.0),
            Address::Config(ConfigScope::User) => "config/user"@,
            Address::Config(ConfigScope::Workspace(id)) => "config/workspace/"@ + hyphenated(id.0),
            Address::Config(ConfigScope::Session(id)) => "config/session/"@ + hyphenated(id.0),
            Address::Profiles => "profiles"@,
            Address::Write(workspace, call) => "write/"@ + hyphenated(workspace.0) + "/"@
                + hyphenated(call.runtime.0) + "-"@ + padded(call.id as nat, 20),
            Address::WriteResolution(workspace, call) => "write-resolution/"@ + hyphenated(
                workspace.0,
            ) + "/"@ + hyphenated(call.runtime.0) + "-"@ + padded(call.id as nat, 20),
            Address::Core(session) => "core/"@ + hyphenated(session.0),
            Address::CoreChunk(session, index) => "core-chunks/"@ + hyphenated(session.0) + "/"@
                + decimal(index as nat),
            Address::CoreRecord(session, seq) => "core-record/"@ + hyphenated(session.0) + "/"@
                + decimal(seq as nat),
            Address::CoreCall(session, call) => "core-call/"@ + hyphenated(session.0) + "/"@
                + decimal(call as nat),
            Address::Journal(session) => "app/session/"@ + hyphenated(session.0),
            Address::Lease(session) => "session-"@ + hyphenated(session.0),
        }
    }

    /// The text of an address.
    pub fn to_text(self) -> (r: String)
        ensures
            r@ == self.text(),
    {
        match self {
            Address::Workspaces => "workspaces".to_owned(),
            Address::Session(id) => under("session/", id.0),
            Address::Input(session, input) => {
                let mut text = under("input/", session.0);
                text.push_str("/");
                text.push_str(padded_string(input.0, 20).as_str());
                text
            },
            Address::Request(session, request) => pair("request/", session.0, "/", request.0),
            Address::AcceptanceRequest(session, request) => pair(
                "acceptance-request/",
                session.0,
                "/",
                request.0,
            ),
            Address::ResultProjection(session) => under("result-projection/", session.0),
            Address::EvidenceProjection(session) => under("evidence-projection/", session.0),
            Address::EvidenceSource(source) => numbered(
                "evidence-source/",
                source.session.0,
                source.record,
            ),
            Address::EvidenceMetadata(source) => numbered(
                "evidence-metadata/",
                source.session.0,
                source.record,
            ),
            Address::EvidenceBody(source, index) => {
                let mut text = numbered("evidence-body/", source.session.0, source.record);
                text.push_str(":");
                if index < 1000000 {
                    text.push_str(padded_string(index, 6).as_str());
                } else {
                    text.push_str(decimal_string(index).as_str());
                }
                text
            },
            Address::Result(result) => {
                let mut text = under("result/", result.session.0);
                text.push_str("/");
                text.push_str(padded_string(result.version.0, 20).as_str());
                text
            },
            Address::AttentionProjection => "attention-projection".to_owned(),
            Address::AttentionInput(workspace, session, input) => {
                let mut text = pair("attention/", workspace.0, "/input/", session.0);
                text.push_str("/");
                text.push_str(padded_string(input.0, 20).as_str());
                text
            },
            Address::AttentionWrite(workspace, call) => {
                let mut text = pair("attention/", workspace.0, "/write/", call.runtime.0);
                text.push_str("/");
                text.push_str(padded_string(call.id, 20).as_str());
                text
            },
            Address::Acceptance(result, saved_at, id) => {
                let mut text = under("acceptance/", result.session.0);
                text.push_str("/");
                text.push_str(padded_string(result.version.0, 20).as_str());
                text.push_str("/");
                text.push_str(padded_string(saved_at.0, 20).as_str());
                text.push_str("/");
                text.push_str(uuid_text(id.0).as_str());
                text
            },
            Address::Config(scope) => match scope {
                ConfigScope::User => "config/user".to_owned(),
                ConfigScope::Workspace(id) => under("config/workspace/", id.0),
                ConfigScope::Session(id) => under("config/session/", id.0),
            },
            Address::Profiles => "profiles".to_owned(),
            Address::Write(workspace, call) => {
                let mut text = pair("write/", workspace.0, "/", call.runtime.0);
                text.push_str("-");
                text.push_str(padded_string(call.id, 20).as_str());
                text
            },
            Address::WriteResolution(workspace, call) => {
                let mut text = pair("write-resolution/", workspace.0, "/", call.runtime.0);
                text.push_str("-");
                text.push_str(padded_string(call.id, 20).as_str());
                text
            },
            Address::Core(session) => under("core/", session.0),
            Address::CoreChunk(session, index) => numbered("core-chunks/", session.0, index),
            Address::CoreRecord(session, seq) => numbered("core-record/", session.0, seq),
            Address::CoreCall(session, call) => numbered("core-call/", session.0, call),
            Address::Journal(session) => under("app/session/", session.0),
            Address::Lease(session) => under("session-", session.0),
        }
    }
}

/// What the addresses of a session's inputs start with.
pub open spec fn input_prefix(session: SessionId) -> Seq<char> {
    "input/"@ + hyphenated(session.0) + "/"@
}

fn under(family: &str, id: u128) -> (r: String)
    ensures
        r@ == family@ + hyphenated(id),
{
    let mut text = family.to_owned();
    text.push_str(uuid_text(id).as_str());
    text
}

fn pair(family: &str, first: u128, between: &str, second: u128) -> (r: String)
    ensures
        r@ == family@ + hyphenated(first) + between@ + hyphenated(second),
{
    let mut text = under(family, first);
    text.push_str(between);
    text.push_str(uuid_text(second).as_str());
    text
}

fn numbered(family: &str, id: u128, number: u64) -> (r: String)
    ensures
        r@ == family@ + hyphenated(id) + "/"@ + decimal(number as nat),
{
    let mut text = under(family, id);
    text.push_str("/");
    text.push_str(decimal_string(number).as_str());
    text
}

/// Where the part of an address that starts at `from` ends: at the next slash, else at the end.
pub open spec fn part_end(text: Seq<char>, from: int) -> int
    decreases text.len() - from,
{
    if from >= text.len() || text[from] == '/' {
        from
    } else {
        part_end(text, from + 1)
    }
}

fn find_part_end(text: &Vec<char>, from: usize) -> (r: usize)
    requires
        from <= text@.len(),
    ensures
        r == part_end(text@, from as int),
        from <= r <= text@.len(),
        r < text@.len() ==> text@[r as int] == '/',
{
    let mut at: usize = from;
    while at < text.len() && text[at] != '/'
        invariant
            from <= at <= text@.len(),
            part_end(text@, from as int) == part_end(text@, at as int),
        decreases text@.len() - at,
    {
        at = at + 1;
    }
    at
}

/// The session of an input's address, or what is wrong with the address.
pub open spec fn input_owner(text: Seq<char>) -> Result<SessionId, StoreError> {
    let first = part_end(text, 0);
    if text.take(first) != "input"@ {
        Err(StoreError::Corrupt { message: "input document has an invalid key" })
    } else if first >= text.len() {
        Err(StoreError::Corrupt { message: "input document key has no session" })
    } else {
        match parsed_uuid(text.subrange(first + 1, part_end(text, first + 1))) {
            Some(id) => Ok(SessionId(id)),
            None => Err(
                StoreError::Corrupt { message: "input document key has an invalid session" },
            ),
        }
    }
}

/// The session of an input's address.
pub fn session_from_input_key(text: &str) -> (r: Result<SessionId, StoreError>)
    ensures
        r == input_owner(text@),
        forall|session: SessionId, input: InputId| text@ == #[trigger] Address::Input(session, input).text()
            ==> r == Ok::<SessionId, StoreError>(session),
{
    let chars = to_chars(text);
    let first: usize = find_part_end(&chars, 0);
    let family = from_chars(&chars, 0, first);
    proof {
        assert(chars@.subrange(0, first as int) =~= chars@.take(first as int));
        assert forall|session: SessionId, input: InputId| text@ == #[trigger] Address::Input(
            session,
            input,
        ).text() implies {
            &&& text@.take(first as int) == "input"@
            &&& first < text@.len()
            &&& text@.subrange(first + 1, part_end(text@, first + 1)) == hyphenated(session.0)
        } by {
            lemma_input_address_parts(session, input);
        }
    }
    if !same_text(family.as_str(), "input") {
        return Err(StoreError::Corrupt { message: "input document has an invalid key" });
    }
    if first >= chars.len() {
        return Err(StoreError::Corrupt { message: "input document key has no session" });
    }
    let end: usize = find_part_end(&chars, first + 1);
    let session = from_chars(&chars, first + 1, end);
    match parse_uuid(session.as_str()) {
        Some(id) => Ok(SessionId(id)),
        None => Err(
            StoreError::Corrupt { message: "input document key has an invalid session" },
        ),
    }
}

proof fn lemma_part_end(text: Seq<char>, from: int, end: int)
    requires
        0 <= from <= end <= text.len(),
        forall|i: int| from <= i < end ==> (#[trigger] text[i]) != '/',
        end < text.len() ==> text[end] == '/',
    ensures
        part_end(text, from) == end,
    decreases end - from,
{
    if from < end {
        lemma_part_end(text, from + 1, end);
    }
}

/// The first two parts of an input's address are its family and its session.
proof fn lemma_input_address_parts(session: SessionId, input: InputId)
    ensures
        ({
            let text = Address::Input(session, input).text();
            &&& part_end(text, 0) == 5
            &&& text.take(5) == "input"@
            &&& text.len() > 5
            &&& text.subrange(6, part_end(text, 6)) == hyphenated(session.0)
        }),
{
    reveal_strlit("input/");
    reveal_strlit("input");
    reveal_strlit("/");
    let text = Address::Input(session, input).text();
    let name = hyphenated(session.0);
    assert(text.take(5) =~= "input"@);
    assert forall|i: int| 0 <= i < 5 implies (#[trigger] text[i]) != '/' by {
        assert(text[i] == "input"@[i]);
    }
    lemma_part_end(text, 0, 5);
    assert(text.subrange(6, 42) =~= name);
    assert forall|i: int| 6 <= i < 42 implies (#[trigger] text[i]) != '/' by {
        assert(text[i] == name[i - 6]);
    }
    assert(text[42] == '/');
    lemma_part_end(text, 6, 42);
}

/// Whether a text stands before another of the same length, by the first character in which they
/// differ.
pub open spec fn text_before(a: Seq<char>, b: Seq<char>) -> bool {
    &&& a.len() == b.len()
    &&& exists|k: int|
        0 <= k < a.len() && #[trigger] a.take(k) == b.take(k) && (a[k] as u32) < (b[k] as u32)
}

/// Ten to the power `n`.
pub open spec fn pow10(n: nat) -> nat
    decreases n,
{
    if n == 0 {
        1
    } else {
        10 * pow10((n - 1) as nat)
    }
}

proof fn lemma_padded_len(n: nat, width: nat)
    ensures
        padded(n, width).len() == width,
    decreases width,
{
    if width > 0 {
        lemma_padded_len(n / 10, (width - 1) as nat);
    }
}

/// Numbers with leading zeros stand in the order of the numbers.
pub proof fn lemma_padded_order(a: nat, b: nat, width: nat)
    requires
        a < b < pow10(width),
    ensures
        text_before(padded(a, width), padded(b, width)),
    decreases width,
{
    lemma_padded_len(a, width);
    lemma_padded_len(b, width);
    if width > 0 {
        let shorter = (width - 1) as nat;
        lemma_padded_len(a / 10, shorter);
        lemma_padded_len(b / 10, shorter);
        let x = padded(a, width);
        let y = padded(b, width);
        if a / 10 < b / 10 {
            lemma_padded_order(a / 10, b / 10, shorter);
            let p = padded(a / 10, shorter);
            let q = padded(b / 10, shorter);
            let k = choose|k: int|
                0 <= k < p.len() && #[trigger] p.take(k) == q.take(k) && (p[k] as u32) < (
                q[k] as u32);
            assert(x.take(k) =~= p.take(k));
            assert(y.take(k) =~= q.take(k));
            assert(x[k] == p[k] && y[k] == q[k]);
        } else {
            assert(a / 10 == b / 10);
            assert(a % 10 < b % 10);
            assert(x.take(shorter as int) =~= padded(a / 10, shorter));
            assert(y.take(shorter as int) =~= padded(b / 10, shorter));
            assert(x[shorter as int] == digit(a % 10));
            assert(y[shorter as int] == digit(b % 10));
        }
    }
}

/// The addresses of a session's inputs stand in the order of their numbers.
pub proof fn law_input_addresses_are_in_order(session: SessionId, a: InputId, b: InputId)
    requires
        a.0 < b.0,
    ensures
        text_before(Address::Input(session, a).text(), Address::Input(session, b).text()),
{
    assert(pow10(20) == 100000000000000000000) by {
        reveal_with_fuel(pow10, 21);
    }
    lemma_padded_order(a.0 as nat, b.0 as nat, 20);
    let prefix = input_prefix(session);
    let p = padded(a.0 as nat, 20);
    let q = padded(b.0 as nat, 20);
    let k = choose|k: int|
        0 <= k < p.len() && #[trigger] p.take(k) == q.take(k) && (p[k] as u32) < (q[k] as u32);
    let x = Address::Input(session, a).text();
    let y = Address::Input(session, b).text();
    let at = prefix.len() + k;
    assert(x.take(at) =~= prefix + p.take(k));
    assert(y.take(at) =~= prefix + q.take(k));
    assert(x[at] == p[k] && y[at] == q[k]);
}

proof fn lemma_hex_digit(a: nat, b: nat)
    requires
        a < 16,
        b < 16,
        hex_digit(a) == hex_digit(b),
    ensures
        a == b,
{
    assert(hex_digit(a) as u32 == hex_digit(b) as u32);
}

proof fn lemma_pow16_positive(n: nat)
    ensures
        pow16(n) > 0,
    decreases n,
{
    if n > 0 {
        lemma_pow16_positive((n - 1) as nat);
    }
}

proof fn lemma_nibbles(a: u128, b: u128, n: nat)
    requires
        n <= 32,
        forall|k: nat| n <= k < 32 ==> #[trigger] nibble(a, k) == nibble(b, k),
    ensures
        (a as nat) / pow16(n) == (b as nat) / pow16(n),
    decreases 32 - n,
{
    lemma_pow16_positive(n);
    if n == 32 {
        assert(pow16(32) == 0x100000000000000000000000000000000) by {
            reveal_with_fuel(pow16, 33);
        }
        lemma_basic_div(a as int, pow16(32) as int);
        lemma_basic_div(b as int, pow16(32) as int);
    } else {
        lemma_nibbles(a, b, n + 1);
        lemma_div_denominator(a as int, pow16(n) as int, 16);
        lemma_div_denominator(b as int, pow16(n) as int, 16);
        assert(pow16(n + 1) == 16 * pow16(n));
        let x = (a as nat) / pow16(n);
        let y = (b as nat) / pow16(n);
        assert(pow16(n) as int * 16 == pow16(n + 1));
        assert(x / 16 == (a as nat) / pow16(n + 1));
        assert(y / 16 == (b as nat) / pow16(n + 1));
        assert(nibble(a, n) == nibble(b, n));
        assert(x % 16 == y % 16);
        lemma_fundamental_div_mod(x as int, 16);
        lemma_fundamental_div_mod(y as int, 16);
    }
}

/// Different identities have different texts.
pub proof fn law_identity_texts_are_distinct(a: u128, b: u128)
    requires
        hyphenated(a) == hyphenated(b),
    ensures
        a == b,
{
    assert forall|k: nat| 0 <= k < 32 implies #[trigger] nibble(a, k) == nibble(b, k) by {
        let d = 31 - k;
        let skipped: int = if d < 8 { 0 } else if d < 12 { 1 } else if d < 16 { 2 } else if d < 20 {
            3
        } else {
            4
        };
        let i = d + skipped;
        assert(hyphenated(a)[i] == hex_digit(nibble(a, k)));
        assert(hyphenated(b)[i] == hex_digit(nibble(b, k)));
        lemma_hex_digit(nibble(a, k), nibble(b, k));
    }
    lemma_nibbles(a, b, 0);
    assert(pow16(0) == 1);
    assert((a as nat) / 1 == a as nat);
    assert((b as nat) / 1 == b as nat);
}

/// The address of an input starts with the prefix of its own session, and of no other.
pub proof fn law_input_addresses_stay_apart(session: SessionId, other: SessionId, input: InputId)
    ensures
        ({
            let text = Address::Input(session, input).text();
            let prefix = input_prefix(other);
            text.take(prefix.len() as int) == prefix <==> session == other
        }),
{
    reveal_strlit("input/");
    reveal_strlit("/");
    let text = Address::Input(session, input).text();
    let own = input_prefix(session);
    let prefix = input_prefix(other);
    assert(own.len() == prefix.len());
    assert(text.take(own.len() as int) =~= own);
    if own == prefix {
        assert(own.subrange(6, 42) =~= hyphenated(session.0));
        assert(prefix.subrange(6, 42) =~= hyphenated(other.0));
        law_identity_texts_are_distinct(session.0, other.0);
    }
}

} // verus!
