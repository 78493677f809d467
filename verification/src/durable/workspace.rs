//! The identity of workspaces: canonical paths, their stable storage form, and the context of one
//! launch directory.

use vstd::prelude::*;
use vstd::utf8::{encode_utf8, is_ascii_chars, is_ascii_chars_encode_utf8};

use super::error::{RegistryError, WorkspaceError};
use super::registry::{resolved, WorkspaceRegistry};
use crate::ids::{hex_digit, WorkspaceId};
use crate::path::{absolute, FilePath};

verus! {

/// An absolute canonical path.
#[derive(Debug, PartialEq, Eq, Hash)]
pub struct CanonicalPath {
    pub path: FilePath,
}

impl View for CanonicalPath {
    type V = Seq<u8>;

    open spec fn view(&self) -> Seq<u8> {
        self.path@
    }
}

/// The hexadecimal form of bytes, two lower-case digits each.
pub open spec fn hex_text(bytes: Seq<u8>) -> Seq<char>
    decreases bytes.len(),
{
    if bytes.len() == 0 {
        Seq::empty()
    } else {
        hex_text(bytes.drop_last()).push(hex_digit((bytes.last() / 16) as nat)).push(
            hex_digit((bytes.last() % 16) as nat),
        )
    }
}

/// The value of a hexadecimal digit, of either case.
pub open spec fn digit_value(byte: u8) -> Option<int> {
    if 48 <= byte <= 57 {
        Some(byte - 48)
    } else if 97 <= byte <= 102 {
        Some(byte - 87)
    } else if 65 <= byte <= 70 {
        Some(byte - 55)
    } else {
        None
    }
}

/// The value of two characters: two digits, or a plus sign and one digit.
pub open spec fn pair_value(high: u8, low: u8) -> Option<int> {
    match (digit_value(high), digit_value(low)) {
        (Some(a), Some(b)) => Some(a * 16 + b),
        (None, Some(b)) => if high == 43 {
            Some(b)
        } else {
            None
        },
        _ => None,
    }
}

/// The bytes of a hexadecimal form, or nothing where it is none.
pub open spec fn hex_bytes(text: Seq<u8>) -> Option<Seq<u8>>
    decreases text.len(),
{
    if text.len() == 0 {
        Some(Seq::empty())
    } else if text.len() == 1 {
        None
    } else {
        match hex_bytes(text.take(text.len() - 2)) {
            Some(head) => match pair_value(text[text.len() - 2], text[text.len() - 1]) {
                Some(value) => Some(head.push(value as u8)),
                None => None,
            },
            None => None,
        }
    }
}

/// Digits as characters.
fn hex_char(value: u8) -> (r: char)
    requires
        value < 16,
    ensures
        r == hex_digit(value as nat),
{
    match value {
        0 => '0',
        1 => '1',
        2 => '2',
        3 => '3',
        4 => '4',
        5 => '5',
        6 => '6',
        7 => '7',
        8 => '8',
        9 => '9',
        10 => 'a',
        11 => 'b',
        12 => 'c',
        13 => 'd',
        14 => 'e',
        _ => 'f',
    }
}

/// The hexadecimal form of bytes.
pub fn hex_encode(bytes: &[u8]) -> (r: String)
    ensures
        r@ == hex_text(bytes@),
{
    let mut r = String::new();
    let mut i: usize = 0;
    proof {
        assert(bytes@.take(0) =~= Seq::<u8>::empty());
        assert(r@ =~= Seq::<char>::empty());
    }
    while i < bytes.len()
        invariant
            i <= bytes@.len(),
            r@ == hex_text(bytes@.take(i as int)),
        decreases bytes@.len() - i,
    {
        proof {
            assert(bytes@.take(i + 1).drop_last() =~= bytes@.take(i as int));
        }
        r.push(hex_char(bytes[i] / 16));
        r.push(hex_char(bytes[i] % 16));
        i = i + 1;
    }
    proof {
        assert(bytes@.take(i as int) =~= bytes@);
    }
    r
}

fn value_of_digit(byte: u8) -> (r: Option<u8>)
    ensures
        match r {
            Some(value) => digit_value(byte) == Some(value as int) && value < 16,
            None => digit_value(byte) is None,
        },
{
    if 48 <= byte && byte <= 57 {
        Some(byte - 48)
    } else if 97 <= byte && byte <= 102 {
        Some(byte - 87)
    } else if 65 <= byte && byte <= 70 {
        Some(byte - 55)
    } else {
        None
    }
}

fn value_of_pair(high: u8, low: u8) -> (r: Option<u8>)
    ensures
        match r {
            Some(value) => pair_value(high, low) == Some(value as int),
            None => pair_value(high, low) is None,
        },
{
    match (value_of_digit(high), value_of_digit(low)) {
        (Some(a), Some(b)) => Some(a * 16 + b),
        (None, Some(b)) => if high == 43 {
            Some(b)
        } else {
            None
        },
        _ => None,
    }
}

/// A hexadecimal form that cannot be read stays unreadable whatever follows.
proof fn lemma_hex_prefix(text: Seq<u8>, k: int)
    requires
        0 <= k <= text.len(),
        k % 2 == 0,
        text.len() % 2 == 0,
        hex_bytes(text.take(k)) is None,
    ensures
        hex_bytes(text) is None,
    decreases text.len() - k,
{
    if k < text.len() {
        assert(text.take(k + 2).take(k) =~= text.take(k));
        assert(hex_bytes(text.take(k + 2)) is None);
        lemma_hex_prefix(text, k + 2);
    } else {
        assert(text.take(k) =~= text);
    }
}

proof fn lemma_hex_odd(text: Seq<u8>)
    requires
        text.len() % 2 == 1,
    ensures
        hex_bytes(text) is None,
    decreases text.len(),
{
    if text.len() > 1 {
        lemma_hex_odd(text.take(text.len() - 2));
    }
}

/// The bytes of a hexadecimal form.
pub fn hex_decode(encoded: &[u8]) -> (r: Result<Vec<u8>, &'static str>)
    ensures
        match hex_bytes(encoded@) {
            Some(bytes) => r matches Ok(found) && found@ == bytes,
            None => r matches Err(message) && message == "invalid canonical path encoding",
        },
{
    if encoded.len() % 2 != 0 {
        proof {
            lemma_hex_odd(encoded@);
        }
        return Err("invalid canonical path encoding");
    }
    let mut bytes: Vec<u8> = Vec::new();
    let mut i: usize = 0;
    proof {
        assert(encoded@.take(0) =~= Seq::<u8>::empty());
    }
    while i < encoded.len()
        invariant
            i <= encoded@.len(),
            i % 2 == 0,
            encoded@.len() % 2 == 0,
            hex_bytes(encoded@.take(i as int)) == Some(bytes@),
        decreases encoded@.len() - i,
    {
        proof {
            assert(encoded@.take(i + 2).take(i as int) =~= encoded@.take(i as int));
        }
        match value_of_pair(encoded[i], encoded[i + 1]) {
            Some(value) => {
                bytes.push(value);
            },
            None => {
                proof {
                    lemma_hex_prefix(encoded@, i + 2);
                }
                return Err("invalid canonical path encoding");
            },
        }
        i = i + 2;
    }
    proof {
        assert(encoded@.take(i as int) =~= encoded@);
    }
    Ok(bytes)
}

/// The bytes `unix:`.
pub open spec fn platform_tag() -> Seq<u8> {
    seq![117u8, 110u8, 105u8, 120u8, 58u8]
}

/// The storage form of a path: the platform and the hexadecimal form of its bytes.
pub open spec fn storage_text(path: Seq<u8>) -> Seq<char> {
    "unix:"@ + hex_text(path)
}

/// The path of a storage form, or why it is none.
pub open spec fn stored_path(encoded: Seq<char>) -> Result<Seq<u8>, &'static str> {
    let bytes = encode_utf8(encoded);
    if bytes.len() < 5 || bytes.take(5) != platform_tag() {
        Err("canonical path belongs to a different platform")
    } else {
        match hex_bytes(bytes.skip(5)) {
            Some(path) => Ok(path),
            None => Err("invalid canonical path encoding"),
        }
    }
}

/// The storage form of a path.
pub fn encode_os_path(path: &FilePath) -> (r: String)
    ensures
        r@ == storage_text(path@),
{
    let mut r = "unix:".to_owned();
    r.push_str(hex_encode(path.bytes.as_slice()).as_str());
    r
}

/// The path of a storage form.
pub fn decode_os_path(encoded: &str) -> (r: Result<FilePath, &'static str>)
    ensures
        match stored_path(encoded@) {
            Ok(path) => r matches Ok(found) && found@ == path,
            Err(message) => r matches Err(found) && found == message,
        },
{
    let bytes = encoded.as_bytes();
    let ghost all = encode_utf8(encoded@);
    if bytes.len() < 5 || bytes[0] != 117 || bytes[1] != 110 || bytes[2] != 105 || bytes[3] != 120
        || bytes[4] != 58 {
        proof {
            if all.len() >= 5 {
                let tag = all.take(5);
                assert(tag[0] == all[0] && tag[1] == all[1] && tag[2] == all[2] && tag[3] == all[3]
                    && tag[4] == all[4]);
                assert(platform_tag()[0] == 117u8);
            }
        }
        return Err("canonical path belongs to a different platform");
    }
    proof {
        assert(all.take(5) =~= platform_tag());
    }
    let mut rest: Vec<u8> = Vec::new();
    let mut i: usize = 5;
    while i < bytes.len()
        invariant
            5 <= i <= bytes@.len(),
            bytes@ == all,
            rest@ == all.subrange(5, i as int),
        decreases bytes@.len() - i,
    {
        rest.push(bytes[i]);
        proof {
            assert(rest@ =~= all.subrange(5, i + 1));
        }
        i = i + 1;
    }
    proof {
        assert(rest@ =~= all.skip(5));
    }
    match hex_decode(rest.as_slice()) {
        Ok(bytes) => Ok(FilePath { bytes }),
        Err(message) => Err(message),
    }
}

impl CanonicalPath {
    /// An absolute path as a canonical one.
    pub fn new(path: FilePath) -> (r: Result<CanonicalPath, WorkspaceError>)
        ensures
            if absolute(path@) {
                r matches Ok(canonical) && canonical.path == path
            } else {
                r == Err::<CanonicalPath, WorkspaceError>(
                    WorkspaceError::NonAbsoluteCanonicalPath { path },
                )
            },
    {
        if !path.is_absolute() {
            return Err(WorkspaceError::NonAbsoluteCanonicalPath { path });
        }
        Ok(CanonicalPath { path })
    }

    /// The path.
    pub fn as_path(&self) -> (r: &FilePath)
        ensures
            *r == self.path,
    {
        &self.path
    }

    /// The path.
    pub fn into_path_buf(self) -> (r: FilePath)
        ensures
            r == self.path,
    {
        self.path
    }

    /// The storage form of this path.
    pub fn storage_encoding(&self) -> (r: String)
        ensures
            r@ == storage_text(self@),
    {
        encode_os_path(&self.path)
    }

    /// A copy of this path.
    pub fn copy(&self) -> (r: CanonicalPath)
        ensures
            r@ == self@,
    {
        CanonicalPath { path: self.path.copy() }
    }
}

/// The workspace of one launch directory.
#[derive(Debug, PartialEq, Eq)]
pub struct WorkspaceContext {
    pub id: WorkspaceId,
    pub canonical_root: CanonicalPath,
    pub display_root: FilePath,
}

/// Whether this is the workspace of a directory.
pub open spec fn is_discovered(
    id: WorkspaceId,
    display_root: FilePath,
    canonical_root: FilePath,
    is_dir: bool,
    r: Result<WorkspaceContext, WorkspaceError>,
) -> bool {
    r == (if !is_dir {
        Err::<WorkspaceContext, WorkspaceError>(
            WorkspaceError::NotDirectory { path: canonical_root },
        )
    } else if !absolute(canonical_root@) {
        Err(WorkspaceError::NonAbsoluteCanonicalPath { path: canonical_root })
    } else {
        Ok(
            WorkspaceContext {
                id,
                canonical_root: CanonicalPath { path: canonical_root },
                display_root,
            },
        )
    })
}

/// Whether finding the workspace of a directory gives this registry and this answer.
pub open spec fn discovers(
    display_root: FilePath,
    canonical_root: FilePath,
    is_dir: bool,
    before: WorkspaceRegistry,
    after: WorkspaceRegistry,
    r: Result<WorkspaceContext, WorkspaceError>,
) -> bool {
    if !is_dir {
        &&& after == before
        &&& r == Err::<WorkspaceContext, WorkspaceError>(
            WorkspaceError::NotDirectory { path: canonical_root },
        )
    } else if !absolute(canonical_root@) {
        &&& after == before
        &&& r == Err::<WorkspaceContext, WorkspaceError>(
            WorkspaceError::NonAbsoluteCanonicalPath { path: canonical_root },
        )
    } else {
        exists|fresh: WorkspaceId, outcome: Result<WorkspaceId, RegistryError>|
            {
                &&& fresh.0 != 0
                &&& #[trigger] resolved(
                    before,
                    after,
                    canonical_root@,
                    fresh,
                    outcome,
                )
                &&& r == (match outcome {
                    Ok(id) => Ok::<WorkspaceContext, WorkspaceError>(
                        WorkspaceContext {
                            id,
                            canonical_root: CanonicalPath { path: canonical_root },
                            display_root,
                        },
                    ),
                    Err(error) => Err(WorkspaceError::Registry(error)),
                })
            }
    }
}

/// Whether this is the workspace with an identity and its roots.
pub open spec fn makes_context(
    id: WorkspaceId,
    canonical_root: CanonicalPath,
    display_root: FilePath,
    r: Result<WorkspaceContext, WorkspaceError>,
) -> bool {
    if id.0 == 0 {
        r matches Err(WorkspaceError::Registry(RegistryError::InvalidWorkspaceId { key }))
            && key@ == "context"@
    } else if !absolute(display_root@) {
        r == Err::<WorkspaceContext, WorkspaceError>(
            WorkspaceError::NonAbsoluteCanonicalPath { path: display_root },
        )
    } else {
        r == Ok::<WorkspaceContext, WorkspaceError>(
            WorkspaceContext { id, canonical_root, display_root },
        )
    }
}

impl WorkspaceContext {
    /// The context of a launch directory that was resolved, under the identity of its root: the
    /// root must be a directory.
    pub fn discovered(
        id: WorkspaceId,
        display_root: FilePath,
        canonical_root: FilePath,
        is_dir: bool,
    ) -> (r: Result<WorkspaceContext, WorkspaceError>)
        ensures
            is_discovered(id, display_root, canonical_root, is_dir, r),
    {
        if !is_dir {
            return Err(WorkspaceError::NotDirectory { path: canonical_root });
        }
        match CanonicalPath::new(canonical_root) {
            Ok(canonical_root) => Ok(WorkspaceContext { id, canonical_root, display_root }),
            Err(error) => Err(error),
        }
    }

    /// The context of a launch directory that was resolved, with the identity that the registry
    /// has for its root; a new one where the root is not known. No parent of the directory is ever
    /// taken in its place.
    pub fn discover(
        display_root: FilePath,
        canonical_root: FilePath,
        is_dir: bool,
        registry: &mut WorkspaceRegistry,
    ) -> (r: Result<WorkspaceContext, WorkspaceError>)
        ensures
            discovers(display_root, canonical_root, is_dir, *old(registry), *final(registry), r),
    {
        if !is_dir {
            return Err(WorkspaceError::NotDirectory { path: canonical_root });
        }
        let root = match CanonicalPath::new(canonical_root) {
            Ok(root) => root,
            Err(error) => {
                return Err(error);
            },
        };
        match registry.resolve_or_create_canonical(&root) {
            Ok(id) => WorkspaceContext::discovered(id, display_root, root.into_path_buf(), is_dir),
            Err(error) => Err(WorkspaceError::Registry(error)),
        }
    }

    /// The context of a root that is already canonical and checked.
    pub fn from_canonical(
        id: WorkspaceId,
        canonical_root: CanonicalPath,
        display_root: FilePath,
    ) -> (r: Result<WorkspaceContext, WorkspaceError>)
        ensures
            makes_context(id, canonical_root, display_root, r),
    {
        if id.as_uuid() == 0 {
            return Err(
                WorkspaceError::Registry(
                    RegistryError::InvalidWorkspaceId { key: "context".to_owned() },
                ),
            );
        }
        if !display_root.is_absolute() {
            return Err(WorkspaceError::NonAbsoluteCanonicalPath { path: display_root });
        }
        Ok(WorkspaceContext { id, canonical_root, display_root })
    }

    /// The identity of this workspace.
    pub fn id(&self) -> (r: WorkspaceId)
        ensures
            r == self.id,
    {
        self.id
    }

    /// The canonical root.
    pub fn canonical_root(&self) -> (r: &FilePath)
        ensures
            *r == self.canonical_root.path,
    {
        self.canonical_root.as_path()
    }

    /// The canonical root.
    pub fn canonical_path(&self) -> (r: &CanonicalPath)
        ensures
            *r == self.canonical_root,
    {
        &self.canonical_root
    }

    /// The launch directory as the user named it.
    pub fn display_root(&self) -> (r: &FilePath)
        ensures
            *r == self.display_root,
    {
        &self.display_root
    }
}

/// The launch directory as an absolute path: relative ones are seen from the current directory.
pub fn absolute_display_path(path: &FilePath, current: &FilePath) -> (r: FilePath)
    ensures
        r@ == (if absolute(path@) {
            path@
        } else {
            crate::path::joined(current@, path@)
        }),
{
    if path.is_absolute() {
        return path.copy();
    }
    current.join(path)
}

proof fn lemma_hex_digit(d: nat)
    requires
        d < 16,
    ensures
        '\0' <= hex_digit(d) <= '\u{7f}',
        digit_value(hex_digit(d) as u8) == Some(d as int),
{
}

/// The characters of a hexadecimal form as bytes.
pub open spec fn as_ascii(text: Seq<char>) -> Seq<u8> {
    Seq::new(text.len(), |i: int| text[i] as u8)
}

/// The bytes of a hexadecimal form are read back.
pub proof fn law_hex_round_trip(bytes: Seq<u8>)
    ensures
        is_ascii_chars(hex_text(bytes)),
        hex_bytes(as_ascii(hex_text(bytes))) == Some(bytes),
    decreases bytes.len(),
{
    if bytes.len() == 0 {
        assert(as_ascii(hex_text(bytes)) =~= Seq::<u8>::empty());
        assert(bytes =~= Seq::<u8>::empty());
    } else {
        let head = bytes.drop_last();
        let last = bytes.last();
        law_hex_round_trip(head);
        let text = hex_text(bytes);
        let ascii = as_ascii(text);
        let high = (last / 16) as nat;
        let low = (last % 16) as nat;
        lemma_hex_digit(high);
        lemma_hex_digit(low);
        assert(text == hex_text(head).push(hex_digit(high)).push(hex_digit(low)));
        assert forall|i: int| 0 <= i < text.len() implies '\0' <= #[trigger] text[i]
            <= '\u{7f}' by {
            if i < hex_text(head).len() {
                assert(text[i] == hex_text(head)[i]);
            }
        }
        assert(ascii.take(ascii.len() - 2) =~= as_ascii(hex_text(head)));
        assert(ascii[ascii.len() - 2] == hex_digit(high) as u8);
        assert(ascii[ascii.len() - 1] == hex_digit(low) as u8);
        assert(high * 16 + low == last);
        assert(head.push(last) =~= bytes);
    }
}

/// The storage form of a path is read back as that path.
pub proof fn law_storage_form_round_trip(path: Seq<u8>)
    ensures
        stored_path(storage_text(path)) == Ok::<Seq<u8>, &'static str>(path),
{
    let text = storage_text(path);
    law_hex_round_trip(path);
    reveal_strlit("unix:");
    assert forall|i: int| 0 <= i < text.len() implies '\0' <= #[trigger] text[i]
        <= '\u{7f}' by {
        if i >= 5 {
            assert(text[i] == hex_text(path)[i - 5]);
        }
    }
    is_ascii_chars_encode_utf8(text);
    let bytes = encode_utf8(text);
    assert(bytes =~= as_ascii(text));
    assert(bytes.take(5) =~= platform_tag());
    assert(bytes.skip(5) =~= as_ascii(hex_text(path)));
}

} // verus!
