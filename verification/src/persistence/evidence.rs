//! The sources that results cite: their bodies in chunks, and pages of them.

use vstd::prelude::*;
use vstd::utf8::*;

use super::chunks::{
    bytes_of, floor_boundary, joined, law_pieces_join, lemma_encode_concat, lemma_joined_concat,
    pieces, split_pieces,
};
use super::keys::{
    evidence_body_key, evidence_key, make_evidence_body_key, make_evidence_key,
};
use super::projection::SourceView;
use super::{
    DataStore, EvidenceBodyChunk, StoreView, StoredEvidenceMetadata, StoredEvidenceMetadataView,
    StoredEvidenceSource,
};
use crate::api::EvidenceRef;
use crate::document::DocumentKey;
use crate::error::StoreError;
use crate::text::{byte_len, same_text};

verus! {

/// The largest chunk of a source's body, and the largest page of it, in bytes.
pub const EVIDENCE_BODY_CHUNK_BYTES: usize = 64 * 1024;

/// The number of older sources that one step takes over.
pub const LEGACY_EVIDENCE_BACKFILL_LIMIT: usize = 4;

/// The byte offsets of chunks that follow each other.
pub open spec fn spans(parts: Seq<Seq<u8>>) -> Seq<EvidenceBodyChunk> {
    Seq::new(
        parts.len(),
        |i: int|
            EvidenceBodyChunk {
                start: joined(parts.take(i)).len() as u64,
                end: joined(parts.take(i + 1)).len() as u64,
            },
    )
}

/// The chunks of a source's body.
pub open spec fn body_pieces(source: SourceView) -> Seq<Seq<u8>> {
    match source {
        SourceView::Public { body, .. } => pieces(
            encode_utf8(body),
            EVIDENCE_BODY_CHUNK_BYTES as nat,
        ),
        SourceView::Private => Seq::empty(),
    }
}

/// What is stored of a source besides its body.
pub open spec fn metadata_of(source: SourceView) -> StoredEvidenceMetadataView {
    match source {
        SourceView::Public { kind, title, body } => StoredEvidenceMetadataView::Public {
            kind,
            title,
            byte_len: encode_utf8(body).len() as u64,
            chunks: spans(body_pieces(source)),
        },
        SourceView::Private => StoredEvidenceMetadataView::Private,
    }
}

impl StoreView {
    /// The store with the chunks of a source's body.
    pub open spec fn with_bodies(self, source: EvidenceRef, parts: Seq<Seq<u8>>) -> StoreView
        decreases parts.len(),
    {
        if parts.len() == 0 {
            self
        } else {
            let head = self.with_bodies(source, parts.drop_last());
            StoreView {
                evidence_bodies: head.evidence_bodies.insert(
                    evidence_body_key(source, (parts.len() - 1) as u64),
                    decode_utf8(parts.last()),
                ),
                ..head
            }
        }
    }

    /// The store with a source.
    pub open spec fn with_source(self, source: EvidenceRef, content: SourceView) -> StoreView {
        StoreView {
            evidence_metadata: self.evidence_metadata.insert(
                evidence_key(source),
                metadata_of(content),
            ),
            ..self.with_bodies(source, body_pieces(content))
        }
    }

    /// Whether a source is stored with other values than the given ones.
    pub open spec fn source_conflicts(self, source: EvidenceRef, content: SourceView) -> bool {
        &&& self.evidence_metadata.dom().contains(evidence_key(source))
        &&& self.evidence_metadata[evidence_key(source)] != metadata_of(content)
    }
}

/// Only bodies change with the chunks of a body.
pub proof fn lemma_bodies_frame(store: StoreView, source: EvidenceRef, parts: Seq<Seq<u8>>)
    ensures
        store.with_bodies(source, parts) == (StoreView {
            evidence_bodies: store.with_bodies(source, parts).evidence_bodies,
            ..store
        }),
    decreases parts.len(),
{
    if parts.len() > 0 {
        lemma_bodies_frame(store, source, parts.drop_last());
    }
}

/// What is stored of a body depends on the bodies alone.
pub proof fn lemma_bodies_independent(
    a: StoreView,
    b: StoreView,
    source: EvidenceRef,
    parts: Seq<Seq<u8>>,
)
    requires
        a.evidence_bodies == b.evidence_bodies,
    ensures
        a.with_bodies(source, parts).evidence_bodies == b.with_bodies(
            source,
            parts,
        ).evidence_bodies,
    decreases parts.len(),
{
    if parts.len() > 0 {
        lemma_bodies_independent(a, b, source, parts.drop_last());
    }
}

proof fn lemma_joined_take(parts: Seq<Seq<u8>>, i: int)
    requires
        0 <= i < parts.len(),
    ensures
        joined(parts.take(i + 1)) == joined(parts.take(i)) + parts[i],
        joined(parts.take(i + 1)).len() <= joined(parts).len(),
{
    assert(parts.take(i + 1).drop_last() =~= parts.take(i));
    lemma_joined_concat(parts.take(i + 1), parts.skip(i + 1));
    assert(parts.take(i + 1) + parts.skip(i + 1) =~= parts);
}

fn same_chunks(a: &Vec<EvidenceBodyChunk>, b: &Vec<EvidenceBodyChunk>) -> (r: bool)
    ensures
        r == (a@ == b@),
{
    if a.len() != b.len() {
        return false;
    }
    let mut i: usize = 0;
    while i < a.len()
        invariant
            a@.len() == b@.len(),
            i <= a@.len(),
            forall|j: int| 0 <= j < i ==> a@[j] == b@[j],
        decreases a@.len() - i,
    {
        if a[i] != b[i] {
            return false;
        }
        i = i + 1;
    }
    proof {
        assert(a@ =~= b@);
    }
    true
}

fn copy_chunks(chunks: &Vec<EvidenceBodyChunk>) -> (r: Vec<EvidenceBodyChunk>)
    ensures
        r@ == chunks@,
{
    let mut r: Vec<EvidenceBodyChunk> = Vec::new();
    let mut i: usize = 0;
    while i < chunks.len()
        invariant
            i <= chunks@.len(),
            r@ == chunks@.take(i as int),
        decreases chunks@.len() - i,
    {
        r.push(chunks[i]);
        proof {
            assert(r@ =~= chunks@.take(i + 1));
        }
        i = i + 1;
    }
    proof {
        assert(chunks@.take(i as int) =~= chunks@);
    }
    r
}

impl StoredEvidenceMetadata {
    /// Whether two descriptions are the same.
    pub fn same(&self, other: &StoredEvidenceMetadata) -> (r: bool)
        ensures
            r == (self@ == other@),
    {
        match (self, other) {
            (StoredEvidenceMetadata::Private, StoredEvidenceMetadata::Private) => true,
            (
                StoredEvidenceMetadata::Public { kind, title, byte_len, chunks },
                StoredEvidenceMetadata::Public {
                    kind: other_kind,
                    title: other_title,
                    byte_len: other_len,
                    chunks: other_chunks,
                },
            ) => *kind == *other_kind && same_text(title.as_str(), other_title.as_str())
                && *byte_len == *other_len && same_chunks(chunks, other_chunks),
            _ => false,
        }
    }

    /// A copy of this description.
    pub fn copy(&self) -> (r: StoredEvidenceMetadata)
        ensures
            r@ == self@,
    {
        match self {
            StoredEvidenceMetadata::Private => StoredEvidenceMetadata::Private,
            StoredEvidenceMetadata::Public { kind, title, byte_len, chunks } =>
                StoredEvidenceMetadata::Public {
                kind: *kind,
                title: title.clone(),
                byte_len: *byte_len,
                chunks: copy_chunks(chunks),
            },
        }
    }
}

/// What is stored of a source: its description and the chunks of its body.
pub(crate) fn describe(source: &StoredEvidenceSource) -> (r: (StoredEvidenceMetadata, Vec<String>))
    ensures
        r.0@ == metadata_of(source@),
        bytes_of(r.1@) == body_pieces(source@),
{
    match source {
        StoredEvidenceSource::Private => {
            let parts: Vec<String> = Vec::new();
            proof {
                assert(bytes_of(parts@) =~= Seq::<Seq<u8>>::empty());
            }
            (StoredEvidenceMetadata::Private, parts)
        },
        StoredEvidenceSource::Public { kind, title, body } => {
            let parts = split_pieces(body.as_str(), EVIDENCE_BODY_CHUNK_BYTES);
            let ghost bytes = encode_utf8(body@);
            let ghost views = bytes_of(parts@);
            let total: usize = byte_len(body.as_str());
            proof {
                encode_utf8_valid_utf8(body@);
                law_pieces_join(bytes, EVIDENCE_BODY_CHUNK_BYTES as nat);
            }
            let mut chunks: Vec<EvidenceBodyChunk> = Vec::new();
            let mut start: usize = 0;
            let mut i: usize = 0;
            proof {
                assert(views.take(0) =~= Seq::<Seq<u8>>::empty());
            }
            while i < parts.len()
                invariant
                    i <= parts@.len(),
                    views == bytes_of(parts@),
                    joined(views).len() == total,
                    start == joined(views.take(i as int)).len(),
                    chunks@ == spans(views).take(i as int),
                decreases parts@.len() - i,
            {
                proof {
                    lemma_joined_take(views, i as int);
                    assert(views[i as int] == encode_utf8(parts@[i as int]@));
                }
                let end: usize = start + byte_len(parts[i].as_str());
                chunks.push(EvidenceBodyChunk { start: start as u64, end: end as u64 });
                proof {
                    assert(chunks@ =~= spans(views).take(i + 1));
                }
                start = end;
                i = i + 1;
            }
            proof {
                assert(chunks@ =~= spans(views));
            }
            (
                StoredEvidenceMetadata::Public {
                    kind: *kind,
                    title: title.clone(),
                    byte_len: total as u64,
                    chunks,
                },
                parts,
            )
        },
    }
}

impl DataStore {
    /// Whether a source is stored with other values than the given ones.
    pub(crate) fn has_source_conflict(
        &self,
        source: EvidenceRef,
        content: &StoredEvidenceSource,
    ) -> (r: bool)
        ensures
            r == self@.source_conflicts(source, content@),
    {
        let (metadata, _) = describe(content);
        match self.evidence_metadata.get(&make_evidence_key(source)) {
            Some(saved) => !saved.same(&metadata),
            None => false,
        }
    }

    /// Stores the chunks of a body.
    fn store_bodies(&mut self, source: EvidenceRef, parts: Vec<String>)
        ensures
            final(self)@ == old(self)@.with_bodies(source, bytes_of(parts@)),
    {
        let ghost start = self@;
        let ghost views = bytes_of(parts@);
        let mut i: usize = 0;
        proof {
            assert(views.take(0) =~= Seq::<Seq<u8>>::empty());
        }
        while i < parts.len()
            invariant
                i <= parts@.len(),
                views == bytes_of(parts@),
                self@ == start.with_bodies(source, views.take(i as int)),
            decreases parts@.len() - i,
        {
            let ghost before = self@;
            let part = parts[i].clone();
            let key = make_evidence_body_key(source, i as u64);
            self.evidence_bodies.put(key, part);
            proof {
                encode_utf8_decode_utf8(part@);
                assert(views.take(i + 1).drop_last() =~= views.take(i as int));
                assert(views.take(i + 1).last() == encode_utf8(part@));
                assert(self@.evidence_bodies =~= before.evidence_bodies.insert(key, part@));
                assert(self@ =~= start.with_bodies(source, views.take(i + 1)));
            }
            i = i + 1;
        }
        proof {
            assert(views.take(i as int) =~= views);
        }
    }

    /// Stores a source. One that is stored with other values is corruption, and changes nothing.
    pub(crate) fn sync_evidence_source(
        &mut self,
        source: EvidenceRef,
        content: &StoredEvidenceSource,
    ) -> (r: Result<(), StoreError>)
        ensures
            if old(self)@.source_conflicts(source, content@) {
                r == Err::<(), StoreError>(
                    StoreError::Corrupt {
                        message: "evidence source projection conflicts with durable history",
                    },
                ) && final(self)@ == old(self)@
            } else {
                r is Ok && final(self)@ == old(self)@.with_source(source, content@)
            },
    {
        let ghost start = self@;
        let (metadata, parts) = describe(content);
        let key = make_evidence_key(source);
        let exists = match self.evidence_metadata.get(&key) {
            Some(saved) => {
                if !saved.same(&metadata) {
                    return Err(
                        StoreError::Corrupt {
                            message: "evidence source projection conflicts with durable history",
                        },
                    );
                }
                true
            },
            None => false,
        };
        self.store_bodies(source, parts);
        let ghost stored = self@;
        proof {
            lemma_bodies_frame(start, source, body_pieces(content@));
        }
        if !exists {
            self.evidence_metadata.put(key, metadata);
            proof {
                assert(self@.evidence_metadata =~= start.evidence_metadata.insert(
                    key,
                    metadata_of(content@),
                ));
            }
        } else {
            proof {
                assert(start.evidence_metadata.insert(key, metadata_of(content@))
                    =~= start.evidence_metadata);
            }
        }
        proof {
            assert(self@ =~= start.with_source(source, content@));
        }
        Ok(())
    }
}

/// What taking over older sources has come to.
pub ghost struct Migration {
    pub store: StoreView,
    pub migrated: nat,
    pub pending: bool,
}

/// Takes over older sources one by one: those that are described already are left alone, and from
/// the fifth on the others have to wait.
pub open spec fn migrate(store: StoreView, sources: Seq<EvidenceRef>) -> Migration
    decreases sources.len(),
{
    if sources.len() == 0 {
        Migration { store, migrated: 0, pending: false }
    } else {
        let before = migrate(store, sources.drop_last());
        let source = sources.last();
        let key = evidence_key(source);
        if before.store.evidence_metadata.dom().contains(key) {
            before
        } else if before.migrated >= LEGACY_EVIDENCE_BACKFILL_LIMIT {
            Migration { pending: true, ..before }
        } else if before.store.evidence_sources.dom().contains(key) {
            Migration {
                store: before.store.with_source(source, before.store.evidence_sources[key]@),
                migrated: before.migrated + 1,
                pending: before.pending,
            }
        } else {
            before
        }
    }
}

/// One page of a source.
pub struct StoredEvidencePage {
    pub metadata: StoredEvidenceMetadata,
    pub text: Option<String>,
    pub offset: u64,
    pub next_offset: Option<u64>,
}

/// The first chunk from `index` on that ends behind `offset`.
pub open spec fn covering(chunks: Seq<EvidenceBodyChunk>, offset: u64, index: int) -> int
    decreases chunks.len() - index,
{
    if index >= chunks.len() || chunks[index].end > offset {
        index
    } else {
        covering(chunks, offset, index + 1)
    }
}

/// What reading a page comes to.
pub ghost enum Walk {
    Read { bytes: Seq<u8>, position: int },
    Failed(StoreError),
}

/// The end of what one chunk adds to a page: as far as the budget, the chunk and character
/// boundaries allow.
pub open spec fn page_end(body: Seq<u8>, local: int, remaining: int) -> int {
    floor_boundary(
        body,
        local + if remaining < body.len() - local {
            remaining
        } else {
            body.len() - local
        },
    )
}

/// Reads a page from the chunk at `index` on, until the budget or the body is used up.
pub open spec fn walk(
    chunks: Seq<EvidenceBodyChunk>,
    bodies: Map<DocumentKey, Seq<char>>,
    source: EvidenceRef,
    index: int,
    position: int,
    read: Seq<u8>,
    budget: int,
    byte_len: u64,
) -> Walk
    decreases chunks.len() - index,
{
    if index >= chunks.len() {
        Walk::Read { bytes: read, position }
    } else {
        let chunk = chunks[index];
        let key = evidence_body_key(source, index as u64);
        if position < chunk.start || chunk.end <= chunk.start || chunk.end > byte_len {
            Walk::Failed(StoreError::Corrupt { message: "invalid evidence body manifest" })
        } else if !bodies.dom().contains(key) {
            Walk::Failed(StoreError::Corrupt { message: "missing evidence body chunk" })
        } else {
            let body = encode_utf8(bodies[key]);
            let local = position - chunk.start;
            if body.len() != chunk.end - chunk.start {
                Walk::Failed(StoreError::Corrupt { message: "invalid evidence body chunk length" })
            } else if local > usize::MAX {
                Walk::Failed(StoreError::Corrupt { message: "invalid evidence body offset" })
            } else if !is_char_boundary(body, local) {
                Walk::Failed(
                    StoreError::Corrupt { message: "evidence offset is not a valid page boundary" },
                )
            } else {
                let end = page_end(body, local, budget - read.len());
                if end <= local {
                    Walk::Failed(
                        StoreError::Corrupt {
                            message: "evidence page budget cannot contain the next UTF-8 character",
                        },
                    )
                } else {
                    let bytes = read + body.subrange(local, end);
                    let next = position + (end - local);
                    if bytes.len() == budget || next == byte_len {
                        Walk::Read { bytes, position: next }
                    } else {
                        walk(chunks, bodies, source, index + 1, next, bytes, budget, byte_len)
                    }
                }
            }
        }
    }
}

/// What a page of a described body comes to.
pub open spec fn page_of(
    chunks: Seq<EvidenceBodyChunk>,
    bodies: Map<DocumentKey, Seq<char>>,
    source: EvidenceRef,
    offset: u64,
    budget: int,
    byte_len: u64,
) -> Walk {
    if offset > byte_len {
        Walk::Failed(StoreError::Corrupt { message: "evidence offset is out of range" })
    } else if offset == byte_len {
        Walk::Read { bytes: Seq::empty(), position: offset as int }
    } else {
        match walk(
            chunks,
            bodies,
            source,
            covering(chunks, offset, 0),
            offset as int,
            Seq::empty(),
            budget,
            byte_len,
        ) {
            Walk::Read { bytes, position } => if bytes.len() == 0 {
                Walk::Failed(
                    StoreError::Corrupt {
                        message: "evidence body manifest does not cover the requested offset",
                    },
                )
            } else {
                Walk::Read { bytes, position }
            },
            failed => failed,
        }
    }
}

/// The budget of a page: at least one byte, at most one chunk.
pub open spec fn page_budget(max_bytes: usize) -> int {
    if max_bytes < 1 {
        1
    } else if max_bytes > EVIDENCE_BODY_CHUNK_BYTES {
        EVIDENCE_BODY_CHUNK_BYTES as int
    } else {
        max_bytes as int
    }
}

proof fn lemma_floor_from(bytes: Seq<u8>, boundary: int, end: int)
    requires
        valid_utf8(bytes),
        0 <= boundary <= end <= bytes.len(),
        is_char_boundary(bytes, boundary),
    ensures
        boundary <= floor_boundary(bytes, end) <= end,
        is_char_boundary(bytes, floor_boundary(bytes, end)),
    decreases end,
{
    if end > 0 && !is_char_boundary(bytes, end) {
        lemma_floor_from(bytes, boundary, end - 1);
    }
}

/// A boundary behind a boundary is one of the rest of the text.
proof fn lemma_boundary_shift(bytes: Seq<u8>, local: int, end: int)
    requires
        valid_utf8(bytes),
        is_char_boundary(bytes, local),
        is_char_boundary(bytes, end),
        0 <= local <= end <= bytes.len(),
    ensures
        valid_utf8(bytes.subrange(local, bytes.len() as int)),
        is_char_boundary(bytes.subrange(local, bytes.len() as int), end - local),
{
    let rest = bytes.subrange(local, bytes.len() as int);
    valid_utf8_split(bytes, local);
    if end == local {
    } else if end == bytes.len() {
        is_char_boundary_start_end_of_seq(rest);
    } else {
        is_char_boundary_iff_not_is_continuation_byte(bytes, end);
        is_char_boundary_iff_not_is_continuation_byte(rest, end - local);
        assert(rest[end - local] == bytes[end]);
    }
}

/// The part of a text between two character boundaries.
fn slice(text: &str, from: usize, to: usize) -> (r: String)
    requires
        is_char_boundary(encode_utf8(text@), from as int),
        is_char_boundary(encode_utf8(text@), to as int),
        from <= to <= encode_utf8(text@).len(),
    ensures
        encode_utf8(r@) == encode_utf8(text@).subrange(from as int, to as int),
{
    let ghost bytes = encode_utf8(text@);
    proof {
        encode_utf8_valid_utf8(text@);
        lemma_boundary_shift(bytes, from as int, to as int);
    }
    let (_, rest) = text.split_at(from);
    let (middle, _) = rest.split_at(to - from);
    proof {
        assert(bytes.subrange(from as int, bytes.len() as int).subrange(0, to - from)
            =~= bytes.subrange(from as int, to as int));
    }
    middle.to_owned()
}

/// Whether reading a page of a source gives this store and this answer.
pub open spec fn reads_page(
    before: StoreView,
    source: EvidenceRef,
    offset: u64,
    max_bytes: usize,
    after: StoreView,
    r: Result<Option<StoredEvidencePage>, StoreError>,
) -> bool {
    &&& after == migrate(before, seq![source]).store
    &&& {
        let store = after;
        let key = evidence_key(source);
        if !store.evidence_metadata.dom().contains(key) {
            r matches Ok(None)
        } else {
            match store.evidence_metadata[key] {
                StoredEvidenceMetadataView::Private => {
                    &&& r matches Ok(Some(page))
                    &&& page.metadata@ == store.evidence_metadata[key]
                    &&& page.text is None
                    &&& page.offset == 0
                    &&& page.next_offset is None
                },
                StoredEvidenceMetadataView::Public { byte_len, chunks, .. } => match page_of(
                    chunks,
                    store.evidence_bodies,
                    source,
                    offset,
                    page_budget(max_bytes),
                    byte_len,
                ) {
                    Walk::Read { bytes, position } => {
                        &&& r matches Ok(Some(page))
                        &&& page.metadata@ == store.evidence_metadata[key]
                        &&& page.text matches Some(text)
                        &&& encode_utf8(text@) == bytes
                        &&& page.offset == offset
                        &&& page.next_offset == (if position < byte_len {
                            Some(position as u64)
                        } else {
                            None
                        })
                    },
                    Walk::Failed(error) => r == Err::<
                        Option<StoredEvidencePage>,
                        StoreError,
                    >(error),
                },
            }
        }
    }
}

impl DataStore {
    /// Takes over older sources, at most four of them, and returns whether others have to wait.
    pub(crate) fn prepare_evidence_metadata(&mut self, sources: &Vec<EvidenceRef>) -> (pending: bool)
        ensures
            final(self)@ == migrate(old(self)@, sources@).store,
            pending == migrate(old(self)@, sources@).pending,
    {
        let ghost start = self@;
        let mut pending = false;
        let mut migrated: usize = 0;
        let mut i: usize = 0;
        proof {
            assert(sources@.take(0) =~= Seq::<EvidenceRef>::empty());
        }
        while i < sources.len()
            invariant
                i <= sources@.len(),
                migrate(start, sources@.take(i as int)) == (Migration {
                    store: self@,
                    migrated: migrated as nat,
                    pending,
                }),
                migrated <= LEGACY_EVIDENCE_BACKFILL_LIMIT,
            decreases sources@.len() - i,
        {
            let source = sources[i];
            let key = make_evidence_key(source);
            proof {
                assert(sources@.take(i + 1).drop_last() =~= sources@.take(i as int));
                assert(sources@.take(i + 1).last() == source);
            }
            if !self.evidence_metadata.has(&key) {
                if migrated >= LEGACY_EVIDENCE_BACKFILL_LIMIT {
                    pending = true;
                } else {
                    match self.evidence_sources.take(&key) {
                        Some(content) => {
                            let ghost without = self@;
                            let _ = self.sync_evidence_source(source, &content);
                            let ghost with = self@;
                            proof {
                                let before = migrate(start, sources@.take(i as int)).store;
                                lemma_bodies_frame(without, source, body_pieces(content@));
                                lemma_bodies_frame(before, source, body_pieces(content@));
                                lemma_bodies_independent(
                                    without,
                                    before,
                                    source,
                                    body_pieces(content@),
                                );
                            }
                            self.evidence_sources.put(key, content);
                            proof {
                                let before = migrate(start, sources@.take(i as int)).store;
                                assert(self@.evidence_sources =~= before.evidence_sources);
                                assert(self@ =~= before.with_source(
                                    source,
                                    before.evidence_sources[key]@,
                                ));
                            }
                            migrated = migrated + 1;
                        },
                        None => {
                            proof {
                                let before = migrate(start, sources@.take(i as int)).store;
                                assert(self@.evidence_sources =~= before.evidence_sources);
                                assert(self@ =~= before);
                            }
                        },
                    }
                }
            }
            i = i + 1;
        }
        proof {
            assert(sources@.take(i as int) =~= sources@);
        }
        pending
    }

    /// Reads a page of a described body.
    fn read_page(
        &self,
        source: EvidenceRef,
        chunks: &Vec<EvidenceBodyChunk>,
        total: u64,
        offset: u64,
        max_bytes: usize,
    ) -> (r: Result<(String, u64), StoreError>)
        ensures
            match page_of(
                chunks@,
                self@.evidence_bodies,
                source,
                offset,
                page_budget(max_bytes),
                total,
            ) {
                Walk::Read { bytes, position } => {
                    &&& r matches Ok((text, next))
                    &&& encode_utf8(text@) == bytes
                    &&& next == position
                },
                Walk::Failed(error) => r == Err::<(String, u64), StoreError>(error),
            },
    {
        if offset > total {
            return Err(StoreError::Corrupt { message: "evidence offset is out of range" });
        }
        if offset == total {
            let text = String::new();
            proof {
                assert(encode_utf8(text@) =~= Seq::<u8>::empty());
            }
            return Ok((text, offset));
        }
        let budget: usize = if max_bytes < 1 {
            1
        } else if max_bytes > EVIDENCE_BODY_CHUNK_BYTES {
            EVIDENCE_BODY_CHUNK_BYTES
        } else {
            max_bytes
        };
        let mut index: usize = 0;
        while index < chunks.len() && chunks[index].end <= offset
            invariant
                index <= chunks@.len(),
                covering(chunks@, offset, 0) == covering(chunks@, offset, index as int),
            decreases chunks@.len() - index,
        {
            index = index + 1;
        }
        let ghost bodies = self@.evidence_bodies;
        let ghost goal = walk(
            chunks@,
            bodies,
            source,
            index as int,
            offset as int,
            Seq::empty(),
            budget as int,
            total,
        );
        let mut text = String::new();
        let mut read: usize = 0;
        let mut position: u64 = offset;
        let mut done = false;
        proof {
            assert(encode_utf8(text@) =~= Seq::<u8>::empty());
        }
        while index < chunks.len() && !done
            invariant
                index <= chunks@.len(),
                bodies == self@.evidence_bodies,
                1 <= budget <= EVIDENCE_BODY_CHUNK_BYTES,
                read == encode_utf8(text@).len(),
                read <= budget,
                !done ==> read < budget,
                offset < total,
                budget == page_budget(max_bytes),
                !done ==> goal == walk(
                    chunks@,
                    bodies,
                    source,
                    index as int,
                    position as int,
                    encode_utf8(text@),
                    budget as int,
                    total,
                ),
                done ==> goal == (Walk::Read {
                    bytes: encode_utf8(text@),
                    position: position as int,
                }),
                goal == walk(
                    chunks@,
                    bodies,
                    source,
                    covering(chunks@, offset, 0),
                    offset as int,
                    Seq::empty(),
                    budget as int,
                    total,
                ),
            decreases chunks@.len() - index, (if done { 0int } else { 1 }),
        {
            let chunk = chunks[index];
            if position < chunk.start || chunk.end <= chunk.start || chunk.end > total {
                return Err(StoreError::Corrupt { message: "invalid evidence body manifest" });
            }
            let key = make_evidence_body_key(source, index as u64);
            let body = match self.evidence_bodies.get(&key) {
                Some(body) => body,
                None => {
                    return Err(StoreError::Corrupt { message: "missing evidence body chunk" });
                },
            };
            let ghost bytes = encode_utf8(body@);
            let n: usize = byte_len(body.as_str());
            if n as u64 != chunk.end - chunk.start {
                return Err(StoreError::Corrupt { message: "invalid evidence body chunk length" });
            }
            let distance: u64 = position - chunk.start;
            if distance > usize::MAX as u64 {
                return Err(StoreError::Corrupt { message: "invalid evidence body offset" });
            }
            let local: usize = distance as usize;
            if !body.as_str().is_char_boundary(local) {
                return Err(
                    StoreError::Corrupt { message: "evidence offset is not a valid page boundary" },
                );
            }
            proof {
                encode_utf8_valid_utf8(body@);
                if local > bytes.len() {
                    assert(!is_char_boundary(bytes, local as int));
                }
            }
            let remaining: usize = budget - read;
            let mut end: usize = if remaining < n - local {
                local + remaining
            } else {
                n
            };
            proof {
                lemma_floor_from(bytes, local as int, end as int);
            }
            while end > local && !body.as_str().is_char_boundary(end)
                invariant
                    bytes == encode_utf8(body@),
                    valid_utf8(bytes),
                    local <= end <= bytes.len(),
                    is_char_boundary(bytes, local as int),
                    floor_boundary(bytes, end as int) == page_end(
                        bytes,
                        local as int,
                        remaining as int,
                    ),
                    local <= page_end(bytes, local as int, remaining as int),
                decreases end,
            {
                end = end - 1;
            }
            proof {
                lemma_floor_from(bytes, local as int, end as int);
                assert(end == page_end(bytes, local as int, remaining as int));
            }
            if end == local {
                return Err(
                    StoreError::Corrupt {
                        message: "evidence page budget cannot contain the next UTF-8 character",
                    },
                );
            }
            let part = slice(body.as_str(), local, end);
            let ghost before = text@;
            text.push_str(part.as_str());
            proof {
                lemma_encode_concat(before, part@);
                assert(encode_utf8(text@) =~= encode_utf8(before) + bytes.subrange(
                    local as int,
                    end as int,
                ));
            }
            read = read + (end - local);
            position = position + (end - local) as u64;
            if read == budget || position == total {
                done = true;
            } else {
                index = index + 1;
            }
        }
        if read == 0 {
            return Err(
                StoreError::Corrupt {
                    message: "evidence body manifest does not cover the requested offset",
                },
            );
        }
        Ok((text, position))
    }

    /// A page of a source's body, from a byte offset on: nothing where the source is not stored,
    /// no text where it is private.
    pub fn evidence_source_page_record(
        &mut self,
        source: EvidenceRef,
        offset: u64,
        max_bytes: usize,
    ) -> (r: Result<Option<StoredEvidencePage>, StoreError>)
        ensures
            reads_page(old(self)@, source, offset, max_bytes, final(self)@, r),
    {
        let mut sources: Vec<EvidenceRef> = Vec::new();
        sources.push(source);
        proof {
            assert(sources@ =~= seq![source]);
        }
        let _ = self.prepare_evidence_metadata(&sources);
        let metadata = match self.evidence_metadata.get(&make_evidence_key(source)) {
            Some(metadata) => metadata,
            None => {
                return Ok(None);
            },
        };
        match metadata {
            StoredEvidenceMetadata::Private => Ok(
                Some(
                    StoredEvidencePage {
                        metadata: metadata.copy(),
                        text: None,
                        offset: 0,
                        next_offset: None,
                    },
                ),
            ),
            StoredEvidenceMetadata::Public { byte_len, chunks, .. } => {
                match self.read_page(source, chunks, *byte_len, offset, max_bytes) {
                    Ok((text, position)) => Ok(
                        Some(
                            StoredEvidencePage {
                                metadata: metadata.copy(),
                                text: Some(text),
                                offset,
                                next_offset: if position < *byte_len {
                                    Some(position)
                                } else {
                                    None
                                },
                            },
                        ),
                    ),
                    Err(error) => Err(error),
                }
            },
        }
    }
}

proof fn lemma_stored_bodies(store: StoreView, source: EvidenceRef, parts: Seq<Seq<u8>>, index: int)
    requires
        0 <= index < parts.len() <= u64::MAX,
    ensures
        store.with_bodies(source, parts).evidence_bodies.dom().contains(
            evidence_body_key(source, index as u64),
        ),
        store.with_bodies(source, parts).evidence_bodies[evidence_body_key(source, index as u64)]
            == decode_utf8(parts[index]),
    decreases parts.len(),
{
    if index < parts.len() - 1 {
        lemma_stored_bodies(store, source, parts.drop_last(), index);
    }
}

/// Whether a text is kept as parts: valid, not empty, and stored in order under their keys.
spec fn stored_parts(
    bytes: Seq<u8>,
    parts: Seq<Seq<u8>>,
    bodies: Map<DocumentKey, Seq<char>>,
    source: EvidenceRef,
) -> bool {
    &&& valid_utf8(bytes)
    &&& joined(parts) == bytes
    &&& parts.len() <= u64::MAX
    &&& forall|i: int| #![trigger parts[i]]
        0 <= i < parts.len() ==> {
            &&& parts[i].len() > 0
            &&& valid_utf8(parts[i])
            &&& bodies.dom().contains(evidence_body_key(source, i as u64))
            &&& bodies[evidence_body_key(source, i as u64)] == decode_utf8(parts[i])
        }
}

/// Where a part of a stored text stands in it, and what is stored of it.
proof fn lemma_part(
    bytes: Seq<u8>,
    parts: Seq<Seq<u8>>,
    bodies: Map<DocumentKey, Seq<char>>,
    source: EvidenceRef,
    index: int,
)
    requires
        bytes.len() <= u64::MAX,
        stored_parts(bytes, parts, bodies, source),
        0 <= index < parts.len(),
    ensures
        encode_utf8(bodies[evidence_body_key(source, index as u64)]) == parts[index],
        spans(parts).len() == parts.len(),
        spans(parts)[index].start == joined(parts.take(index)).len(),
        spans(parts)[index].end == joined(parts.take(index)).len() + parts[index].len(),
        joined(parts.take(index + 1)).len() == joined(parts.take(index)).len() + parts[index].len(),
        joined(parts.take(index + 1)).len() <= bytes.len(),
        bytes.subrange(
            joined(parts.take(index)).len() as int,
            joined(parts.take(index)).len() as int + parts[index].len(),
        ) == parts[index],
        index + 1 == parts.len() ==> joined(parts.take(index + 1)).len() == bytes.len(),
{
    let part = parts[index];
    let start = joined(parts.take(index)).len() as int;
    lemma_joined_take(parts, index);
    lemma_joined_concat(parts.take(index + 1), parts.skip(index + 1));
    assert(parts.take(index + 1) + parts.skip(index + 1) =~= parts);
    assert(parts.skip(parts.len() as int) =~= Seq::<Seq<u8>>::empty());
    decode_utf8_encode_utf8(part);
    assert(bytes.subrange(start, start + part.len()) =~= part);
}

/// A part of a stored text starts at a character boundary, and its boundaries are those of the
/// text.
proof fn lemma_part_boundary(
    bytes: Seq<u8>,
    parts: Seq<Seq<u8>>,
    bodies: Map<DocumentKey, Seq<char>>,
    source: EvidenceRef,
    index: int,
    local: int,
)
    requires
        bytes.len() <= u64::MAX,
        stored_parts(bytes, parts, bodies, source),
        0 <= index < parts.len(),
        0 <= local <= parts[index].len(),
    ensures
        is_char_boundary(parts[index], local) == is_char_boundary(
            bytes,
            joined(parts.take(index)).len() + local,
        ),
    decreases parts.len() - index,
{
    let part = parts[index];
    let start = joined(parts.take(index)).len() as int;
    lemma_part(bytes, parts, bodies, source, index);
    is_char_boundary_start_end_of_seq(part);
    is_char_boundary_start_end_of_seq(bytes);
    if local < part.len() {
        is_char_boundary_iff_not_is_continuation_byte(part, local);
        is_char_boundary_iff_not_is_continuation_byte(bytes, start + local);
        assert(part[local] == bytes.subrange(start, start + part.len())[local]);
    } else if index + 1 < parts.len() {
        lemma_part_boundary(bytes, parts, bodies, source, index + 1, 0);
        is_char_boundary_start_end_of_seq(parts[index + 1]);
    }
}

proof fn lemma_walk_reads_body(
    bytes: Seq<u8>,
    parts: Seq<Seq<u8>>,
    bodies: Map<DocumentKey, Seq<char>>,
    source: EvidenceRef,
    index: int,
    offset: int,
    position: int,
    read: Seq<u8>,
    budget: int,
)
    requires
        bytes.len() <= u64::MAX,
        stored_parts(bytes, parts, bodies, source),
        0 <= index,
        0 <= offset <= position <= bytes.len(),
        read == bytes.subrange(offset, position),
        read.len() > 0 ==> is_char_boundary(bytes, offset) && is_char_boundary(bytes, position),
    ensures
        walk(
            spans(parts),
            bodies,
            source,
            index,
            position,
            read,
            budget,
            bytes.len() as u64,
        ) matches Walk::Read { bytes: text, position: next } ==> {
            &&& position <= next <= bytes.len()
            &&& text == bytes.subrange(offset, next)
            &&& text.len() > 0 ==> is_char_boundary(bytes, offset) && is_char_boundary(bytes, next)
        },
    decreases parts.len() - index,
{
    if index < parts.len() {
        let part = parts[index];
        let start = joined(parts.take(index)).len() as int;
        lemma_part(bytes, parts, bodies, source, index);
        let body = encode_utf8(bodies[evidence_body_key(source, index as u64)]);
        let local = position - start;
        if position >= start && is_char_boundary(body, local) {
            let end = page_end(body, local, budget - read.len());
            if end > local {
                lemma_floor_bounded(
                    body,
                    local + if budget - read.len() < body.len() - local {
                        budget - read.len()
                    } else {
                        body.len() - local
                    },
                );
                let more = read + body.subrange(local, end);
                let next = position + (end - local);
                lemma_part_boundary(bytes, parts, bodies, source, index, local);
                lemma_part_boundary(bytes, parts, bodies, source, index, end);
                assert(more =~= bytes.subrange(offset, next)) by {
                    assert forall|i: int| 0 <= i < more.len() implies more[i] == bytes.subrange(
                        offset,
                        next,
                    )[i] by {
                        if i >= read.len() {
                            let k = i - read.len() + local;
                            assert(body[k] == bytes.subrange(start, start + part.len())[k]);
                        }
                    }
                }
                lemma_walk_reads_body(
                    bytes,
                    parts,
                    bodies,
                    source,
                    index + 1,
                    offset,
                    next,
                    more,
                    budget,
                );
            }
        }
    }
}

proof fn lemma_floor_bounded(bytes: Seq<u8>, end: int)
    ensures
        floor_boundary(bytes, end) <= end,
        floor_boundary(bytes, end) > 0 ==> is_char_boundary(bytes, floor_boundary(bytes, end)),
    decreases end,
{
    if end > 0 && !is_char_boundary(bytes, end) {
        lemma_floor_bounded(bytes, end - 1);
    }
}

/// The body of a stored source is kept as its pieces.
proof fn lemma_stored_parts(store: StoreView, source: EvidenceRef, content: SourceView)
    requires
        content is Public,
        encode_utf8(content->Public_body).len() <= u64::MAX,
    ensures
        stored_parts(
            encode_utf8(content->Public_body),
            body_pieces(content),
            store.with_source(source, content).evidence_bodies,
            source,
        ),
{
    let bytes = encode_utf8(content->Public_body);
    let parts = body_pieces(content);
    let bodies = store.with_source(source, content).evidence_bodies;
    encode_utf8_valid_utf8(content->Public_body);
    law_pieces_join(bytes, EVIDENCE_BODY_CHUNK_BYTES as nat);
    assert forall|i: int| #![trigger parts[i]] 0 <= i < parts.len() implies parts[i].len() > 0
        && valid_utf8(parts[i]) && bodies.dom().contains(evidence_body_key(source, i as u64))
        && bodies[evidence_body_key(source, i as u64)] == decode_utf8(parts[i]) by {
        lemma_stored_bodies(store, source, parts, i);
    }
}

/// Every page of a stored source is the part of its body from the page's offset to where the next
/// page starts, and both are character boundaries of the body.
pub proof fn law_page_is_part_of_body(
    store: StoreView,
    source: EvidenceRef,
    content: SourceView,
    offset: u64,
    budget: int,
)
    requires
        content is Public,
        encode_utf8(content->Public_body).len() <= usize::MAX,
        budget >= 1,
    ensures
        page_of(
            spans(body_pieces(content)),
            store.with_source(source, content).evidence_bodies,
            source,
            offset,
            budget,
            encode_utf8(content->Public_body).len() as u64,
        ) matches Walk::Read { bytes, position } ==> {
            &&& offset <= position <= encode_utf8(content->Public_body).len()
            &&& bytes == encode_utf8(content->Public_body).subrange(offset as int, position)
            &&& is_char_boundary(encode_utf8(content->Public_body), offset as int)
            &&& is_char_boundary(encode_utf8(content->Public_body), position)
        },
{
    let bytes = encode_utf8(content->Public_body);
    let parts = body_pieces(content);
    let bodies = store.with_source(source, content).evidence_bodies;
    encode_utf8_valid_utf8(content->Public_body);
    law_pieces_join(bytes, EVIDENCE_BODY_CHUNK_BYTES as nat);
    lemma_stored_parts(store, source, content);
    is_char_boundary_start_end_of_seq(bytes);
    if offset == bytes.len() {
        assert(bytes.subrange(offset as int, offset as int) =~= Seq::<u8>::empty());
    } else if offset < bytes.len() {
        assert(bytes.subrange(offset as int, offset as int) =~= Seq::<u8>::empty());
        lemma_covering(spans(parts), offset, 0);
        lemma_walk_reads_body(
            bytes,
            parts,
            bodies,
            source,
            covering(spans(parts), offset, 0),
            offset as int,
            offset as int,
            Seq::empty(),
            budget,
        );
    }
}

proof fn lemma_covering(chunks: Seq<EvidenceBodyChunk>, offset: u64, index: int)
    requires
        0 <= index,
    ensures
        covering(chunks, offset, index) >= index,
        index <= chunks.len() ==> covering(chunks, offset, index) <= chunks.len(),
        covering(chunks, offset, index) < chunks.len() ==> chunks[covering(chunks, offset, index)].end
            > offset,
        forall|k: int| index <= k < covering(chunks, offset, index) ==> (#[trigger] chunks[k]).end <= offset,
    decreases chunks.len() - index,
{
    if index < chunks.len() && chunks[index].end <= offset {
        lemma_covering(chunks, offset, index + 1);
    }
}

/// Of a stored source whose body fits into one chunk, a page with room for one character can be
/// read at every character boundary.
pub proof fn law_small_body_has_pages(
    store: StoreView,
    source: EvidenceRef,
    content: SourceView,
    offset: u64,
    budget: int,
)
    requires
        content is Public,
        encode_utf8(content->Public_body).len() <= EVIDENCE_BODY_CHUNK_BYTES,
        offset <= encode_utf8(content->Public_body).len(),
        is_char_boundary(encode_utf8(content->Public_body), offset as int),
        budget >= 4,
    ensures
        page_of(
            spans(body_pieces(content)),
            store.with_source(source, content).evidence_bodies,
            source,
            offset,
            budget,
            encode_utf8(content->Public_body).len() as u64,
        ) is Read,
{
    let bytes = encode_utf8(content->Public_body);
    let parts = body_pieces(content);
    let bodies = store.with_source(source, content).evidence_bodies;
    encode_utf8_valid_utf8(content->Public_body);
    law_pieces_join(bytes, EVIDENCE_BODY_CHUNK_BYTES as nat);
    if offset < bytes.len() {
        is_char_boundary_start_end_of_seq(bytes);
        assert(super::chunks::first_end(bytes, EVIDENCE_BODY_CHUNK_BYTES as nat) == bytes.len());
        assert(bytes.skip(bytes.len() as int) =~= Seq::<u8>::empty());
        assert(bytes.take(bytes.len() as int) =~= bytes);
        assert(parts =~= seq![bytes]) by {
            reveal_with_fuel(pieces, 2);
        }
        lemma_joined_take(parts, 0);
        assert(parts.take(0) =~= Seq::<Seq<u8>>::empty());
        assert(spans(parts)[0] == (EvidenceBodyChunk { start: 0, end: bytes.len() as u64 }));
        assert(covering(spans(parts), offset, 0) == 0);
        lemma_stored_bodies(store, source, parts, 0);
        decode_utf8_encode_utf8(bytes);
        let local = offset as int;
        let rest = bytes.subrange(local, bytes.len() as int);
        lemma_boundary_shift(bytes, local, bytes.len() as int);
        let first = length_of_first_scalar(rest);
        assert(1 <= first <= 4 && first <= rest.len());
        assert(is_char_boundary(rest, first)) by {
            assert(is_char_boundary(pop_first_scalar(rest), 0));
        }
        assert(is_char_boundary(bytes, local + first)) by {
            if local + first < bytes.len() {
                is_char_boundary_iff_not_is_continuation_byte(rest, first);
                is_char_boundary_iff_not_is_continuation_byte(bytes, local + first);
                assert(rest[first] == bytes[local + first]);
            }
        }
        let stop = local + if budget < bytes.len() - local {
            budget
        } else {
            bytes.len() - local
        };
        lemma_floor_from(bytes, local + first, stop);
        let none = Seq::<u8>::empty();
        assert(budget - none.len() == budget);
        let end = page_end(bytes, local, budget);
        assert(end >= local + first);
        let read = none + bytes.subrange(local, end);
        assert(read.len() > 0);
        reveal_with_fuel(walk, 2);
    }
}

proof fn lemma_walk_to_boundary(
    bytes: Seq<u8>,
    parts: Seq<Seq<u8>>,
    bodies: Map<DocumentKey, Seq<char>>,
    source: EvidenceRef,
    index: int,
    offset: int,
    position: int,
    budget: int,
)
    requires
        bytes.len() <= usize::MAX,
        stored_parts(bytes, parts, bodies, source),
        0 <= index < parts.len(),
        0 <= offset <= position < page_stop(bytes, offset, budget),
        joined(parts.take(index)).len() <= position < joined(parts.take(index)).len()
            + parts[index].len(),
        is_char_boundary(bytes, position),
        is_char_boundary(bytes, page_stop(bytes, offset, budget)),
    ensures
        walk(
            spans(parts),
            bodies,
            source,
            index,
            position,
            bytes.subrange(offset, position),
            budget,
            bytes.len() as u64,
        ) == (Walk::Read {
            bytes: bytes.subrange(offset, page_stop(bytes, offset, budget)),
            position: page_stop(bytes, offset, budget),
        }),
    decreases parts.len() - index,
{
    let part = parts[index];
    let start = joined(parts.take(index)).len() as int;
    let stop = page_stop(bytes, offset, budget);
    let read = bytes.subrange(offset, position);
    lemma_part(bytes, parts, bodies, source, index);
    let local = position - start;
    let end = if stop < start + part.len() {
        stop - start
    } else {
        part.len() as int
    };
    lemma_part_boundary(bytes, parts, bodies, source, index, local);
    lemma_part_boundary(bytes, parts, bodies, source, index, end);
    is_char_boundary_start_end_of_seq(part);
    assert(page_end(part, local, budget - read.len()) == end);
    let next = position + (end - local);
    assert(read + part.subrange(local, end) =~= bytes.subrange(offset, next)) by {
        assert(part.subrange(local, end) =~= bytes.subrange(position, next)) by {
            assert forall|k: int| 0 <= k < end - local implies part.subrange(local, end)[k]
                == bytes.subrange(position, next)[k] by {
                assert(part[local + k] == bytes.subrange(start, start + part.len())[local + k]);
            }
        }
    }
    if next < stop {
        assert(index + 1 < parts.len());
        lemma_part(bytes, parts, bodies, source, index + 1);
        lemma_walk_to_boundary(bytes, parts, bodies, source, index + 1, offset, next, budget);
    }
}

/// Where a page ends that is cut only by its budget and by the end of the body.
pub open spec fn page_stop(body: Seq<u8>, offset: int, budget: int) -> int {
    if offset + budget < body.len() {
        offset + budget
    } else {
        body.len() as int
    }
}

/// Of a stored source of any length, a page between two character boundaries is read in full, over
/// as many chunks as it spans. So pages that follow one another join to the body.
pub proof fn law_page_between_boundaries_is_full(
    store: StoreView,
    source: EvidenceRef,
    content: SourceView,
    offset: u64,
    budget: int,
)
    requires
        content is Public,
        encode_utf8(content->Public_body).len() <= usize::MAX,
        offset <= encode_utf8(content->Public_body).len(),
        budget >= 1,
        is_char_boundary(encode_utf8(content->Public_body), offset as int),
        is_char_boundary(
            encode_utf8(content->Public_body),
            page_stop(encode_utf8(content->Public_body), offset as int, budget),
        ),
    ensures
        page_of(
            spans(body_pieces(content)),
            store.with_source(source, content).evidence_bodies,
            source,
            offset,
            budget,
            encode_utf8(content->Public_body).len() as u64,
        ) == (Walk::Read {
            bytes: encode_utf8(content->Public_body).subrange(
                offset as int,
                page_stop(encode_utf8(content->Public_body), offset as int, budget),
            ),
            position: page_stop(encode_utf8(content->Public_body), offset as int, budget),
        }),
{
    let bytes = encode_utf8(content->Public_body);
    let parts = body_pieces(content);
    let bodies = store.with_source(source, content).evidence_bodies;
    lemma_stored_parts(store, source, content);
    assert(bytes.subrange(offset as int, offset as int) =~= Seq::<u8>::empty());
    if offset < bytes.len() {
        let index = covering(spans(parts), offset, 0);
        lemma_covering(spans(parts), offset, 0);
        assert(parts.len() > 0);
        lemma_part(bytes, parts, bodies, source, parts.len() - 1);
        assert(index < parts.len()) by {
            if index >= parts.len() {
                assert(spans(parts)[parts.len() - 1].end <= offset);
            }
        }
        lemma_part(bytes, parts, bodies, source, index);
        if index > 0 {
            lemma_part(bytes, parts, bodies, source, index - 1);
            assert(spans(parts)[index - 1].end <= offset);
        } else {
            assert(parts.take(0) =~= Seq::<Seq<u8>>::empty());
        }
        lemma_walk_to_boundary(
            bytes,
            parts,
            bodies,
            source,
            index,
            offset as int,
            offset as int,
            budget,
        );
    }
}

} // verus!
