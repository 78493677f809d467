//! Long texts as chunks of bounded size that end at character boundaries.

use vstd::prelude::*;
use vstd::utf8::*;

use crate::error::StoreError;
use crate::text::byte_len;

verus! {

/// The largest chunk of an agent core's state, in bytes.
pub const CORE_CHUNK_BYTES: usize = 512 * 1024;

/// The manifest of an agent core's stored state.
#[derive(Clone, Copy, Debug, PartialEq, Eq, Structural)]
pub struct CoreDocument {
    pub version: u32,
    pub chunks: usize,
    pub byte_len: usize,
}

/// The last character boundary that is not behind `end`.
pub open spec fn floor_boundary(bytes: Seq<u8>, end: int) -> int
    decreases end,
{
    if end <= 0 || is_char_boundary(bytes, end) {
        end
    } else {
        floor_boundary(bytes, end - 1)
    }
}

/// The end of the first chunk of `bytes`.
pub open spec fn first_end(bytes: Seq<u8>, limit: nat) -> int {
    floor_boundary(
        bytes,
        if limit < bytes.len() {
            limit as int
        } else {
            bytes.len() as int
        },
    )
}

/// The chunks of `bytes`: each as long as `limit` and character boundaries allow.
pub open spec fn pieces(bytes: Seq<u8>, limit: nat) -> Seq<Seq<u8>>
    decreases bytes.len(),
{
    let end = first_end(bytes, limit);
    if bytes.len() == 0 || end <= 0 || end > bytes.len() {
        Seq::empty()
    } else {
        seq![bytes.take(end)] + pieces(bytes.skip(end), limit)
    }
}

/// Byte strings one after the other.
pub open spec fn joined(parts: Seq<Seq<u8>>) -> Seq<u8>
    decreases parts.len(),
{
    if parts.len() == 0 {
        Seq::empty()
    } else {
        joined(parts.drop_last()) + parts.last()
    }
}

/// Strings by their bytes.
pub open spec fn bytes_of(strings: Seq<String>) -> Seq<Seq<u8>> {
    strings.map_values(|s: String| encode_utf8(s@))
}

/// Encoding keeps concatenation.
pub proof fn lemma_encode_concat(a: Seq<char>, b: Seq<char>)
    ensures
        encode_utf8(a + b) == encode_utf8(a) + encode_utf8(b),
    decreases a.len(),
{
    if a.len() == 0 {
        assert(a + b =~= b);
        assert(encode_utf8(a) + encode_utf8(b) =~= encode_utf8(b));
    } else {
        lemma_encode_concat(a.drop_first(), b);
        assert((a + b).drop_first() =~= a.drop_first() + b);
        assert(encode_utf8(a + b) =~= encode_utf8(a) + encode_utf8(b));
    }
}

/// Joining keeps concatenation.
pub proof fn lemma_joined_concat(a: Seq<Seq<u8>>, b: Seq<Seq<u8>>)
    ensures
        joined(a + b) == joined(a) + joined(b),
    decreases b.len(),
{
    if b.len() == 0 {
        assert(a + b =~= a);
        assert(joined(a) + joined(b) =~= joined(a));
    } else {
        lemma_joined_concat(a, b.drop_last());
        assert((a + b).drop_last() =~= a + b.drop_last());
        assert((a + b).last() == b.last());
        assert(joined(a + b) =~= joined(a) + joined(b));
    }
}

proof fn lemma_floor(bytes: Seq<u8>, boundary: int, end: int)
    requires
        valid_utf8(bytes),
        1 <= boundary <= end <= bytes.len(),
        is_char_boundary(bytes, boundary),
    ensures
        boundary <= floor_boundary(bytes, end) <= end,
        is_char_boundary(bytes, floor_boundary(bytes, end)),
    decreases end,
{
    if !is_char_boundary(bytes, end) {
        lemma_floor(bytes, boundary, end - 1);
    }
}

/// The first chunk of a non-empty text is not empty and ends at a character boundary.
pub proof fn lemma_first_end(bytes: Seq<u8>, limit: nat)
    requires
        valid_utf8(bytes),
        bytes.len() > 0,
        limit >= 4,
    ensures
        1 <= first_end(bytes, limit) <= bytes.len(),
        first_end(bytes, limit) <= limit,
        is_char_boundary(bytes, first_end(bytes, limit)),
{
    let first = length_of_first_scalar(bytes);
    assert(1 <= first <= 4 && first <= bytes.len());
    assert(is_char_boundary(bytes, first)) by {
        assert(is_char_boundary(pop_first_scalar(bytes), 0));
    }
    lemma_floor(
        bytes,
        first,
        if limit < bytes.len() {
            limit as int
        } else {
            bytes.len() as int
        },
    );
}

/// The chunks of a text, joined, are the text; none is empty or longer than the limit, and each is
/// a text of its own.
pub proof fn law_pieces_join(bytes: Seq<u8>, limit: nat)
    requires
        valid_utf8(bytes),
        limit >= 4,
    ensures
        joined(pieces(bytes, limit)) == bytes,
        forall|i: int| #![trigger pieces(bytes, limit)[i]]
            0 <= i < pieces(bytes, limit).len() ==> 0 < pieces(bytes, limit)[i].len() <= limit
                && valid_utf8(pieces(bytes, limit)[i]),
        pieces(bytes, limit).len() <= bytes.len(),
        bytes.len() > 0 ==> pieces(bytes, limit).len() > 0,
    decreases bytes.len(),
{
    if bytes.len() == 0 {
        assert(joined(pieces(bytes, limit)) =~= bytes);
    } else {
        lemma_first_end(bytes, limit);
        let end = first_end(bytes, limit);
        let head = bytes.take(end);
        let tail = bytes.skip(end);
        valid_utf8_split(bytes, end);
        assert(head =~= bytes.subrange(0, end));
        assert(tail =~= bytes.subrange(end, bytes.len() as int));
        law_pieces_join(tail, limit);
        let rest = pieces(tail, limit);
        lemma_joined_concat(seq![head], rest);
        assert(seq![head].drop_last() =~= Seq::<Seq<u8>>::empty());
        reveal_with_fuel(joined, 2);
        assert(joined(seq![head]) =~= head);
        assert(head + tail =~= bytes);
        let all = pieces(bytes, limit);
        assert forall|i: int| #![trigger all[i]] 0 <= i < all.len() implies 0 < all[i].len()
            <= limit && valid_utf8(all[i]) by {
            if i > 0 {
                assert(all[i] == rest[i - 1]);
            }
        }
    }
}

/// The chunks of a text.
pub fn split_pieces(text: &str, limit: usize) -> (r: Vec<String>)
    requires
        limit >= 4,
    ensures
        bytes_of(r@) == pieces(encode_utf8(text@), limit as nat),
{
    let ghost all = encode_utf8(text@);
    let mut r: Vec<String> = Vec::new();
    let mut rest: &str = text;
    proof {
        assert(bytes_of(r@) + pieces(all, limit as nat) =~= pieces(all, limit as nat));
    }
    while !rest.is_empty()
        invariant
            limit >= 4,
            bytes_of(r@) + pieces(encode_utf8(rest@), limit as nat) == pieces(all, limit as nat),
        decreases encode_utf8(rest@).len(),
    {
        let ghost bytes = encode_utf8(rest@);
        proof {
            encode_utf8_valid_utf8(rest@);
            encode_utf8_decode_utf8(rest@);
            if bytes.len() == 0 {
                assert(decode_utf8(bytes) =~= Seq::<char>::empty());
            }
            lemma_first_end(bytes, limit as nat);
        }
        let n: usize = byte_len(rest);
        let mut end: usize = if limit < n {
            limit
        } else {
            n
        };
        while !rest.is_char_boundary(end)
            invariant
                bytes == encode_utf8(rest@),
                valid_utf8(bytes),
                end <= bytes.len(),
                floor_boundary(bytes, end as int) == first_end(bytes, limit as nat),
                1 <= first_end(bytes, limit as nat),
            decreases end,
        {
            end = end - 1;
        }
        let (head, tail) = rest.split_at(end);
        r.push(head.to_owned());
        proof {
            assert(bytes.take(end as int) =~= bytes.subrange(0, end as int));
            assert(bytes.skip(end as int) =~= bytes.subrange(end as int, bytes.len() as int));
            let before = r@.drop_last();
            assert(bytes_of(r@) =~= bytes_of(before).push(bytes.take(end as int)));
            assert(bytes_of(r@) + pieces(bytes.skip(end as int), limit as nat) =~= bytes_of(before)
                + pieces(bytes, limit as nat));
        }
        rest = tail;
    }
    proof {
        assert(rest@ =~= Seq::<char>::empty());
        assert(bytes_of(r@) =~= pieces(all, limit as nat));
    }
    r
}

/// An agent core's state as its manifest and chunks.
pub fn write_core_chunks(text: &str) -> (r: (CoreDocument, Vec<String>))
    ensures
        bytes_of(r.1@) == pieces(encode_utf8(text@), CORE_CHUNK_BYTES as nat),
        r.0.version == 1,
        r.0.chunks == r.1@.len(),
        r.0.byte_len == encode_utf8(text@).len(),
{
    let chunks = split_pieces(text, CORE_CHUNK_BYTES);
    (CoreDocument { version: 1, chunks: chunks.len(), byte_len: byte_len(text) }, chunks)
}

/// Whether a manifest can be one: version one, and not more chunks than bytes, but at least one.
pub open spec fn valid_manifest(manifest: CoreDocument) -> bool {
    manifest.version == 1 && manifest.chunks != 0 && manifest.chunks <= manifest.byte_len
}

/// The first chunk that is missing or has an impossible length, among the first `count`.
pub open spec fn bad_chunk(chunks: Seq<Option<String>>, index: int) -> bool {
    match chunks[index] {
        Some(chunk) => !(0 < encode_utf8(chunk@).len() <= CORE_CHUNK_BYTES),
        None => true,
    }
}

/// Whether the chunk at `index` is the first bad one.
pub open spec fn first_bad(chunks: Seq<Option<String>>, index: int) -> bool {
    &&& 0 <= index < chunks.len()
    &&& bad_chunk(chunks, index)
    &&& forall|i: int| 0 <= i < index ==> !#[trigger] bad_chunk(chunks, i)
}

/// The bytes of chunks that are all there.
pub open spec fn chunk_bytes(chunks: Seq<Option<String>>) -> Seq<Seq<u8>> {
    chunks.map_values(|chunk: Option<String>| encode_utf8((chunk->0)@))
}

/// An agent core's state from its manifest and chunks, one for each that the manifest counts.
pub fn read_core_chunks(manifest: CoreDocument, chunks: &Vec<Option<String>>) -> (r: Result<
    String,
    StoreError,
>)
    requires
        valid_manifest(manifest) ==> chunks@.len() == manifest.chunks,
    ensures
        match r {
            Ok(text) => {
                &&& valid_manifest(manifest)
                &&& forall|i: int| 0 <= i < chunks@.len() ==> !#[trigger] bad_chunk(chunks@, i)
                &&& encode_utf8(text@) == joined(chunk_bytes(chunks@))
                &&& encode_utf8(text@).len() == manifest.byte_len
            },
            Err(error) => {
                ||| !valid_manifest(manifest) && error == (StoreError::Corrupt {
                    message: "invalid Core chunk manifest",
                })
                ||| {
                    &&& valid_manifest(manifest)
                    &&& exists|i: int| #[trigger]
                        first_bad(chunks@, i) && error == (if chunks@[i] is None {
                            StoreError::Corrupt { message: "missing Core state chunk" }
                        } else {
                            StoreError::Corrupt { message: "invalid Core chunk length" }
                        })
                }
                ||| {
                    &&& valid_manifest(manifest)
                    &&& forall|i: int| 0 <= i < chunks@.len() ==> !#[trigger] bad_chunk(chunks@, i)
                    &&& joined(chunk_bytes(chunks@)).len() != manifest.byte_len
                    &&& error == (StoreError::Corrupt { message: "invalid Core state length" })
                }
            },
        },
{
    if manifest.version != 1 || manifest.chunks == 0 || manifest.chunks > manifest.byte_len {
        return Err(StoreError::Corrupt { message: "invalid Core chunk manifest" });
    }
    let mut text = String::new();
    let mut i: usize = 0;
    while i < chunks.len()
        invariant
            valid_manifest(manifest),
            i <= chunks@.len(),
            forall|j: int| 0 <= j < i ==> !#[trigger] bad_chunk(chunks@, j),
            encode_utf8(text@) == joined(chunk_bytes(chunks@.take(i as int))),
        decreases chunks@.len() - i,
    {
        match &chunks[i] {
            Some(chunk) => {
                let n: usize = byte_len(chunk.as_str());
                if n == 0 || n > CORE_CHUNK_BYTES {
                    proof {
                        assert(bad_chunk(chunks@, i as int));
                        assert(first_bad(chunks@, i as int));
                    }
                    return Err(StoreError::Corrupt { message: "invalid Core chunk length" });
                }
                let ghost before = text@;
                text.push_str(chunk.as_str());
                proof {
                    lemma_encode_concat(before, chunk@);
                    let more = chunk_bytes(chunks@.take(i + 1));
                    assert(more.drop_last() =~= chunk_bytes(chunks@.take(i as int)));
                    assert(more.last() == encode_utf8(chunk@));
                }
            },
            None => {
                proof {
                    assert(bad_chunk(chunks@, i as int));
                    assert(first_bad(chunks@, i as int));
                }
                return Err(StoreError::Corrupt { message: "missing Core state chunk" });
            },
        }
        i = i + 1;
    }
    proof {
        assert(chunks@.take(i as int) =~= chunks@);
    }
    if byte_len(text.as_str()) != manifest.byte_len {
        return Err(StoreError::Corrupt { message: "invalid Core state length" });
    }
    Ok(text)
}

/// What is written in chunks is read back: the chunks of a non-empty text pass every check, and
/// joined they have the bytes of the text.
pub proof fn law_core_chunks_round_trip(
    text: Seq<char>,
    manifest: CoreDocument,
    written: Seq<String>,
    chunks: Seq<Option<String>>,
)
    requires
        text.len() > 0,
        bytes_of(written) == pieces(encode_utf8(text), CORE_CHUNK_BYTES as nat),
        manifest.version == 1,
        manifest.chunks == written.len(),
        manifest.byte_len == encode_utf8(text).len(),
        chunks == written.map_values(|s: String| Some(s)),
    ensures
        valid_manifest(manifest),
        forall|i: int| 0 <= i < chunks.len() ==> !#[trigger] bad_chunk(chunks, i),
        joined(chunk_bytes(chunks)) == encode_utf8(text),
{
    let bytes = encode_utf8(text);
    encode_utf8_valid_utf8(text);
    assert(bytes.len() > 0) by {
        encode_utf8_decode_utf8(text);
        if bytes.len() == 0 {
            assert(decode_utf8(bytes) =~= Seq::<char>::empty());
        }
    }
    law_pieces_join(bytes, CORE_CHUNK_BYTES as nat);
    assert(chunk_bytes(chunks) =~= bytes_of(written));
    assert(bytes_of(written).len() == written.len());
    assert forall|i: int| 0 <= i < chunks.len() implies !#[trigger] bad_chunk(chunks, i) by {
        assert(bytes_of(written)[i] == encode_utf8(written[i]@));
        assert(pieces(bytes, CORE_CHUNK_BYTES as nat)[i].len() <= CORE_CHUNK_BYTES);
    }
}

} // verus!
