//! The registry: a stable map from canonical workspace roots to their identities.

use vstd::prelude::*;

use super::error::RegistryError;
use super::storage::{
    check_document_size, framed_document, places, private_file_path, StorageError,
    MAX_REGISTRY_BYTES,
};
use super::workspace::{storage_text, CanonicalPath};
use crate::ids::WorkspaceId;
use crate::path::{absolute, joined, FilePath};
use crate::text::{
    has_prefix, is_text_before, lemma_text_order, lemma_text_order_chains, same_text, starts_with,
    text_precedes,
};

verus! {

/// The version of the registry's format.
pub const REGISTRY_FORMAT_VERSION: u32 = 1;

/// The largest number of workspaces.
pub const MAX_WORKSPACES: usize = 100000;

/// One entry of the registry.
#[derive(Debug, PartialEq, Eq)]
pub struct RegistryEntry {
    pub key: String,
    pub id: WorkspaceId,
}

/// The content of the registry: a map, with its entries by ascending keys.
#[derive(Debug, PartialEq, Eq)]
pub struct RegistryDocument {
    pub format_version: u32,
    pub workspaces: Vec<RegistryEntry>,
}

/// The key of a canonical root.
pub open spec fn registry_key(path: Seq<u8>) -> Seq<char> {
    "workspace/v1/"@ + storage_text(path)
}

/// The key of a canonical root.
fn make_registry_key(path: &CanonicalPath) -> (r: String)
    ensures
        r@ == registry_key(path@),
{
    let mut r = "workspace/v1/".to_owned();
    r.push_str(path.storage_encoding().as_str());
    r
}

/// Whether an entry can stand in the registry.
pub open spec fn usable(entry: RegistryEntry) -> bool {
    entry.id.0 != 0 && has_prefix(entry.key@, "workspace/v1/"@)
}

/// Whether an entry is the first one with its key.
pub open spec fn first_with(entries: Seq<RegistryEntry>, key: Seq<char>, index: int) -> bool {
    &&& 0 <= index < entries.len()
    &&& entries[index].key@ == key
    &&& forall|i: int| 0 <= i < index ==> (#[trigger] entries[i]).key@ != key
}

/// The identity of a key.
pub open spec fn lookup(entries: Seq<RegistryEntry>, key: Seq<char>) -> Option<WorkspaceId> {
    if exists|i: int| first_with(entries, key, i) {
        Some(entries[choose|i: int| first_with(entries, key, i)].id)
    } else {
        None
    }
}

/// What is wrong with a registry.
pub open spec fn registry_refused(document: RegistryDocument, r: Result<(), RegistryError>) -> bool {
    let entries = document.workspaces@;
    if document.format_version != REGISTRY_FORMAT_VERSION {
        r == Err::<(), RegistryError>(
            RegistryError::UnsupportedFormat { version: document.format_version },
        )
    } else if entries.len() > MAX_WORKSPACES {
        r == Err::<(), RegistryError>(
            RegistryError::TooManyWorkspaces { maximum_entries: MAX_WORKSPACES },
        )
    } else if forall|i: int| 0 <= i < entries.len() ==> usable(#[trigger] entries[i]) {
        r is Ok
    } else {
        exists|i: int|
            {
                &&& 0 <= i < entries.len()
                &&& !usable(#[trigger] entries[i])
                &&& forall|j: int| 0 <= j < i ==> usable(#[trigger] entries[j])
                &&& r matches Err(RegistryError::InvalidWorkspaceId { key })
                &&& key@ == entries[i].key@
            }
    }
}

impl RegistryDocument {
    /// A registry without workspaces.
    pub fn empty() -> (r: RegistryDocument)
        ensures
            r.format_version == REGISTRY_FORMAT_VERSION,
            r.workspaces@ == Seq::<RegistryEntry>::empty(),
    {
        RegistryDocument { format_version: REGISTRY_FORMAT_VERSION, workspaces: Vec::new() }
    }

    /// Checks this registry.
    pub fn validate(&self) -> (r: Result<(), RegistryError>)
        ensures
            registry_refused(*self, r),
    {
        if self.format_version != REGISTRY_FORMAT_VERSION {
            return Err(RegistryError::UnsupportedFormat { version: self.format_version });
        }
        if self.workspaces.len() > MAX_WORKSPACES {
            return Err(RegistryError::TooManyWorkspaces { maximum_entries: MAX_WORKSPACES });
        }
        let mut i: usize = 0;
        while i < self.workspaces.len()
            invariant
                i <= self.workspaces@.len(),
                self.workspaces@.len() <= MAX_WORKSPACES,
                self.format_version == REGISTRY_FORMAT_VERSION,
                forall|j: int| 0 <= j < i ==> usable(#[trigger] self.workspaces@[j]),
            decreases self.workspaces@.len() - i,
        {
            let entry = &self.workspaces[i];
            if entry.id.is_nil() || !starts_with(entry.key.as_str(), "workspace/v1/") {
                proof {
                    assert(!usable(self.workspaces@[i as int]));
                }
                return Err(RegistryError::InvalidWorkspaceId { key: entry.key.clone() });
            }
            i = i + 1;
        }
        Ok(())
    }

    /// The identity of a key.
    fn find(&self, key: &str) -> (r: Option<WorkspaceId>)
        ensures
            r == lookup(self.workspaces@, key@),
    {
        let mut i: usize = 0;
        while i < self.workspaces.len()
            invariant
                i <= self.workspaces@.len(),
                forall|j: int| 0 <= j < i ==> (#[trigger] self.workspaces@[j]).key@ != key@,
            decreases self.workspaces@.len() - i,
        {
            if same_text(self.workspaces[i].key.as_str(), key) {
                proof {
                    assert(first_with(self.workspaces@, key@, i as int));
                    let other = choose|j: int| first_with(self.workspaces@, key@, j);
                    assert(other == i) by {
                        if other < i {
                            assert(self.workspaces@[other].key@ != key@);
                        } else if other > i {
                            assert(self.workspaces@[i as int].key@ == key@);
                        }
                    }
                }
                return Some(self.workspaces[i].id);
            }
            i = i + 1;
        }
        None
    }
}

/// The registry at its path, as it was last read.
#[derive(Debug, PartialEq, Eq)]
pub struct WorkspaceRegistry {
    pub path: FilePath,
    pub document: RegistryDocument,
}

/// A file of a registry that was decoded.
#[derive(Debug, PartialEq, Eq)]
pub struct RegistryFile {
    /// How many bytes it has.
    pub size: u64,
    pub document: RegistryDocument,
}

/// What opening a registry comes to.
pub open spec fn opens(
    path: Seq<u8>,
    file: Option<RegistryFile>,
    r: Result<WorkspaceRegistry, RegistryError>,
) -> bool {
    exists|place: Result<FilePath, StorageError>| #[trigger]
        places(path, place) && match place {
            Err(error) => r == Err::<WorkspaceRegistry, RegistryError>(
                RegistryError::Storage(error),
            ),
            Ok(place) => match file {
                None => {
                    &&& r matches Ok(registry)
                    &&& registry.path == place
                    &&& registry.document.format_version == REGISTRY_FORMAT_VERSION
                    &&& registry.document.workspaces@ == Seq::<RegistryEntry>::empty()
                },
                Some(file) => if file.size > MAX_REGISTRY_BYTES {
                    &&& r matches Err(
                        RegistryError::Storage(
                            StorageError::DocumentTooLarge { path: shown, maximum_bytes },
                        ),
                    )
                    &&& shown@ == place@
                    &&& maximum_bytes == MAX_REGISTRY_BYTES
                } else {
                    match r {
                        Ok(registry) => {
                            &&& registry.path == place
                            &&& registry.document == file.document
                            &&& registry_refused(file.document, Ok(()))
                        },
                        Err(error) => registry_refused(
                            file.document,
                            Err::<(), RegistryError>(error),
                        ),
                    }
                },
            },
        }
}

impl WorkspaceRegistry {
    /// The registry in a state directory, with the file that stands there.
    pub fn open_in(state_root: &FilePath, file: Option<RegistryFile>) -> (r: Result<
        WorkspaceRegistry,
        RegistryError,
    >)
        ensures
            if absolute(state_root@) {
                opens(
                    joined(state_root@, vstd::utf8::encode_utf8("workspaces.json"@)),
                    file,
                    r,
                )
            } else {
                r matches Err(RegistryError::Storage(StorageError::RelativePath { path: shown }))
                    && shown@ == state_root@
            },
    {
        if !state_root.is_absolute() {
            return Err(
                RegistryError::Storage(StorageError::RelativePath { path: state_root.copy() }),
            );
        }
        WorkspaceRegistry::open(state_root.join(&FilePath::from_text("workspaces.json")), file)
    }

    /// The registry at an absolute path, with the file that stands there.
    pub fn open(path: FilePath, file: Option<RegistryFile>) -> (r: Result<
        WorkspaceRegistry,
        RegistryError,
    >)
        ensures
            opens(path@, file, r),
    {
        let place = private_file_path(&path);
        assert(places(path@, place));
        let path = match place {
            Ok(place) => place,
            Err(error) => {
                return Err(RegistryError::Storage(error));
            },
        };
        match file {
            Some(file) => {
                match check_document_size(&path, file.size, MAX_REGISTRY_BYTES) {
                    Ok(()) => {},
                    Err(error) => {
                        return Err(RegistryError::Storage(error));
                    },
                }
                match file.document.validate() {
                    Ok(_) => Ok(WorkspaceRegistry { path, document: file.document }),
                    Err(error) => Err(error),
                }
            },
            None => Ok(WorkspaceRegistry { path, document: RegistryDocument::empty() }),
        }
    }

    /// The bytes of the registry's file, for a document that encodes to `json`.
    pub fn write_document(&self, json: Vec<u8>) -> (r: Result<Vec<u8>, RegistryError>)
        ensures
            if !registry_refused(self.document, Ok(())) {
                r matches Err(error) && registry_refused(
                    self.document,
                    Err::<(), RegistryError>(error),
                )
            } else if json@.len() + 1 > MAX_REGISTRY_BYTES {
                &&& r matches Err(
                    RegistryError::Storage(
                        StorageError::DocumentTooLarge { path: shown, maximum_bytes },
                    ),
                )
                &&& shown@ == self.path@
                &&& maximum_bytes == MAX_REGISTRY_BYTES
            } else {
                r matches Ok(bytes) && bytes@ == json@.push(10)
            },
    {
        match self.document.validate() {
            Ok(()) => {},
            Err(error) => {
                return Err(error);
            },
        }
        match framed_document(&self.path, json, MAX_REGISTRY_BYTES) {
            Ok(bytes) => Ok(bytes),
            Err(error) => Err(RegistryError::Storage(error)),
        }
    }

    /// Where this registry stands.
    pub fn path(&self) -> (r: &FilePath)
        ensures
            *r == self.path,
    {
        &self.path
    }

    /// The identity of a canonical root, where it is known.
    pub fn lookup_canonical(&self, canonical_root: &CanonicalPath) -> (r: Option<WorkspaceId>)
        ensures
            r == lookup(self.document.workspaces@, registry_key(canonical_root@)),
    {
        let key = make_registry_key(canonical_root);
        self.document.find(key.as_str())
    }

    /// The identity of a canonical root; a new one where it is not known.
    pub fn resolve_or_create_canonical(&mut self, canonical_root: &CanonicalPath) -> (r: Result<
        WorkspaceId,
        RegistryError,
    >)
        ensures
            exists|id: WorkspaceId|
                id.0 != 0 && #[trigger] resolved(*old(self), *final(self), canonical_root@, id, r),
    {
        let id = WorkspaceId::new();
        self.resolve_as(id, canonical_root)
    }

    /// The identity of a canonical root; the given one where it is not known.
    pub fn resolve_as(&mut self, id: WorkspaceId, canonical_root: &CanonicalPath) -> (r: Result<
        WorkspaceId,
        RegistryError,
    >)
        ensures
            resolved(*old(self), *final(self), canonical_root@, id, r),
    {
        let key = make_registry_key(canonical_root);
        match self.document.find(key.as_str()) {
            Some(id) => {
                return Ok(id);
            },
            None => {},
        }
        if self.document.workspaces.len() >= MAX_WORKSPACES {
            return Err(RegistryError::TooManyWorkspaces { maximum_entries: MAX_WORKSPACES });
        }
        let ghost before = self.document.workspaces@;
        let mut at: usize = self.document.workspaces.len();
        proof {
            assert(before.take(at as int) =~= before);
        }
        while at > 0 && is_text_before(
            key.as_str(),
            self.document.workspaces[at - 1].key.as_str(),
        )
            invariant
                self.document.workspaces@ == before,
                at <= before.len(),
                place_of(before, key@) == place_of(before.take(at as int), key@),
            decreases at,
        {
            proof {
                assert(before.take(at as int).drop_last() =~= before.take(at - 1));
                assert(before.take(at as int).last() == before[at - 1]);
            }
            at = at - 1;
        }
        proof {
            if at > 0 {
                assert(before.take(at as int).last() == before[at - 1]);
            }
        }
        self.document.workspaces.insert(at, RegistryEntry { key, id });
        proof {
            assert(self.document.workspaces@.remove(at as int) =~= before);
        }
        Ok(id)
    }
}

/// Where the entry of a key goes: behind the last one that does not stand behind it.
pub open spec fn place_of(entries: Seq<RegistryEntry>, key: Seq<char>) -> int
    decreases entries.len(),
{
    if entries.len() > 0 && text_precedes(key, entries.last().key@) {
        place_of(entries.drop_last(), key)
    } else {
        entries.len() as int
    }
}

/// Whether entries stand by ascending keys, each key once.
pub open spec fn in_key_order(entries: Seq<RegistryEntry>) -> bool {
    forall|i: int, j: int|
        0 <= i < j < entries.len() ==> text_precedes(
            (#[trigger] entries[i]).key@,
            (#[trigger] entries[j]).key@,
        )
}

/// What resolving a root with a fresh identity at hand comes to: the known identity, else the
/// fresh one in a new entry in its place.
pub open spec fn resolved(
    before: WorkspaceRegistry,
    after: WorkspaceRegistry,
    root: Seq<u8>,
    fresh: WorkspaceId,
    r: Result<WorkspaceId, RegistryError>,
) -> bool {
    let entries = before.document.workspaces@;
    match lookup(entries, registry_key(root)) {
        Some(id) => after == before && r == Ok::<WorkspaceId, RegistryError>(id),
        None => if entries.len() >= MAX_WORKSPACES {
            after == before && r == Err::<WorkspaceId, RegistryError>(
                RegistryError::TooManyWorkspaces { maximum_entries: MAX_WORKSPACES },
            )
        } else {
            &&& r == Ok::<WorkspaceId, RegistryError>(fresh)
            &&& after.path == before.path
            &&& after.document.format_version == before.document.format_version
            &&& after.document.workspaces@.len() == entries.len() + 1
            &&& after.document.workspaces@.remove(place_of(entries, registry_key(root))) == entries
            &&& after.document.workspaces@[place_of(entries, registry_key(root))].key@
                == registry_key(root)
            &&& after.document.workspaces@[place_of(entries, registry_key(root))].id == fresh
        },
    }
}

/// Different roots have different keys.
pub proof fn law_registry_keys_are_distinct(a: Seq<u8>, b: Seq<u8>)
    requires
        registry_key(a) == registry_key(b),
    ensures
        a == b,
{
    let tag = "workspace/v1/"@;
    assert(registry_key(a).skip(tag.len() as int) =~= storage_text(a));
    assert(registry_key(b).skip(tag.len() as int) =~= storage_text(b));
    super::workspace::law_storage_form_round_trip(a);
    super::workspace::law_storage_form_round_trip(b);
}

/// A root that was resolved is found again under the same identity, and every root that was known
/// keeps its own.
pub proof fn law_identities_are_stable(
    before: WorkspaceRegistry,
    after: WorkspaceRegistry,
    root: Seq<u8>,
    other: Seq<u8>,
    fresh: WorkspaceId,
    r: Result<WorkspaceId, RegistryError>,
)
    requires
        resolved(before, after, root, fresh, r),
    ensures
        r matches Ok(id) ==> lookup(after.document.workspaces@, registry_key(root)) == Some(id),
        lookup(before.document.workspaces@, registry_key(other)) is Some ==> lookup(
            after.document.workspaces@,
            registry_key(other),
        ) == lookup(before.document.workspaces@, registry_key(other)),
{
    let old_entries = before.document.workspaces@;
    let new_entries = after.document.workspaces@;
    if after != before {
        let key = registry_key(root);
        let at = place_of(old_entries, key);
        lemma_place(old_entries, key);
        lemma_entries_around(old_entries, new_entries, at);
        lemma_first_is_unique(new_entries, key);
        lemma_first_is_unique(new_entries, registry_key(other));
        lemma_first_is_unique(old_entries, registry_key(other));
        assert forall|i: int| 0 <= i < at implies (#[trigger] new_entries[i]).key@ != key by {
            if new_entries[i].key@ == key {
                lemma_some_first(old_entries, key, i);
            }
        }
        assert(first_with(new_entries, key, at));
        if lookup(old_entries, registry_key(other)) is Some {
            let k = choose|k: int| first_with(old_entries, registry_key(other), k);
            let moved = if k < at { k } else { k + 1 };
            assert forall|i: int| 0 <= i < moved implies (#[trigger] new_entries[i]).key@
                != registry_key(other) by {
                if i < at {
                    assert(new_entries[i] == old_entries[i]);
                } else if i > at {
                    assert(new_entries[i] == old_entries[i - 1]);
                } else if registry_key(other) == key {
                    assert(first_with(old_entries, key, k));
                }
            }
            assert(first_with(new_entries, registry_key(other), moved));
        }
    }
}

/// Resolving a root keeps the entries by ascending keys, each key once.
pub proof fn law_entries_stay_in_order(
    before: WorkspaceRegistry,
    after: WorkspaceRegistry,
    root: Seq<u8>,
    fresh: WorkspaceId,
    r: Result<WorkspaceId, RegistryError>,
)
    requires
        resolved(before, after, root, fresh, r),
        in_key_order(before.document.workspaces@),
    ensures
        in_key_order(after.document.workspaces@),
{
    let old_entries = before.document.workspaces@;
    let new_entries = after.document.workspaces@;
    if after != before {
        let key = registry_key(root);
        let at = place_of(old_entries, key);
        lemma_place(old_entries, key);
        lemma_entries_around(old_entries, new_entries, at);
        assert forall|i: int| 0 <= i < old_entries.len() implies (#[trigger] old_entries[i]).key@
            != key by {
            if old_entries[i].key@ == key {
                lemma_some_first(old_entries, key, i);
            }
        }
        assert forall|i: int| 0 <= i < at implies text_precedes(
            (#[trigger] old_entries[i]).key@,
            key,
        ) by {
            lemma_text_order(old_entries[at - 1].key@, key);
            if i < at - 1 {
                assert(text_precedes(old_entries[i].key@, old_entries[at - 1].key@));
                lemma_text_order_chains(old_entries[i].key@, old_entries[at - 1].key@, key);
            }
        }
        assert forall|i: int, j: int| 0 <= i < j < new_entries.len() implies text_precedes(
            (#[trigger] new_entries[i]).key@,
            (#[trigger] new_entries[j]).key@,
        ) by {
            let a = if i < at { i } else { i - 1 };
            let b = if j < at { j } else { j - 1 };
            if i != at {
                assert(new_entries[i] == old_entries[a]);
            }
            if j != at {
                assert(new_entries[j] == old_entries[b]);
            }
            if i != at && j != at {
                assert(text_precedes(old_entries[a].key@, old_entries[b].key@));
            }
        }
    }
}

/// The place of a key lies among the entries: all behind it stand behind the key, and the one
/// before it does not.
proof fn lemma_place(entries: Seq<RegistryEntry>, key: Seq<char>)
    ensures
        0 <= place_of(entries, key) <= entries.len(),
        place_of(entries, key) > 0 ==> !text_precedes(
            key,
            entries[place_of(entries, key) - 1].key@,
        ),
        forall|i: int|
            place_of(entries, key) <= i < entries.len() ==> text_precedes(
                key,
                (#[trigger] entries[i]).key@,
            ),
    decreases entries.len(),
{
    if entries.len() > 0 && text_precedes(key, entries.last().key@) {
        lemma_place(entries.drop_last(), key);
        assert forall|i: int| place_of(entries, key) <= i < entries.len() implies text_precedes(
            key,
            (#[trigger] entries[i]).key@,
        ) by {
            if i < entries.len() - 1 {
                assert(entries.drop_last()[i] == entries[i]);
            }
        }
    }
}

/// Where the entries stand after one was put among them.
proof fn lemma_entries_around(
    old_entries: Seq<RegistryEntry>,
    new_entries: Seq<RegistryEntry>,
    at: int,
)
    requires
        0 <= at <= old_entries.len(),
        new_entries.len() == old_entries.len() + 1,
        new_entries.remove(at) == old_entries,
    ensures
        forall|i: int| 0 <= i < at ==> #[trigger] new_entries[i] == old_entries[i],
        forall|i: int|
            at < i < new_entries.len() ==> #[trigger] new_entries[i] == old_entries[i - 1],
{
    assert forall|i: int| 0 <= i < at implies #[trigger] new_entries[i] == old_entries[i] by {
        assert(new_entries.remove(at)[i] == new_entries[i]);
    }
    assert forall|i: int| at < i < new_entries.len() implies #[trigger] new_entries[i]
        == old_entries[i - 1] by {
        assert(new_entries.remove(at)[i - 1] == new_entries[i]);
    }
}

/// There is one first entry of a key at most.
proof fn lemma_first_is_unique(entries: Seq<RegistryEntry>, key: Seq<char>)
    ensures
        forall|i: int, j: int|
            #[trigger] first_with(entries, key, i) && #[trigger] first_with(entries, key, j) ==> i
                == j,
{
    assert forall|i: int, j: int|
        #[trigger] first_with(entries, key, i) && #[trigger] first_with(
            entries,
            key,
            j,
        ) implies i == j by {
        if i < j {
            assert(entries[i].key@ == key);
        } else if j < i {
            assert(entries[j].key@ == key);
        }
    }
}

/// A key that occurs has a first entry.
proof fn lemma_some_first(entries: Seq<RegistryEntry>, key: Seq<char>, at: int)
    requires
        0 <= at < entries.len(),
        entries[at].key@ == key,
    ensures
        exists|i: int| first_with(entries, key, i),
    decreases at,
{
    if forall|i: int| 0 <= i < at ==> (#[trigger] entries[i]).key@ != key {
        assert(first_with(entries, key, at));
    } else {
        let i = choose|i: int| 0 <= i < at && (#[trigger] entries[i]).key@ == key;
        lemma_some_first(entries, key, i);
    }
}

} // verus!
