//! File paths as byte strings with `/` between their parts.

use vstd::prelude::*;

verus! {

/// The byte that separates the parts of a path.
pub const SEPARATOR: u8 = 47;

/// The byte of the current directory; two of them are the directory above.
pub const DOT: u8 = 46;

/// A file path.
#[derive(Debug, PartialEq, Eq, Hash)]
pub struct FilePath {
    pub bytes: Vec<u8>,
}

impl View for FilePath {
    type V = Seq<u8>;

    open spec fn view(&self) -> Seq<u8> {
        self.bytes@
    }
}

/// Whether a path starts at the root.
pub open spec fn absolute(path: Seq<u8>) -> bool {
    path.len() > 0 && path[0] == SEPARATOR
}

/// The path `child` as seen from `base`: `child` itself where it is absolute, else `child` behind
/// `base` with one separator between them.
pub open spec fn joined(base: Seq<u8>, child: Seq<u8>) -> Seq<u8> {
    if absolute(child) {
        child
    } else if base.len() == 0 || base.last() == SEPARATOR {
        base + child
    } else {
        base.push(SEPARATOR) + child
    }
}

/// Where the parts of a path begin: behind the root, or behind the current directory that a
/// relative path starts with.
pub open spec fn body_start(path: Seq<u8>) -> int {
    if absolute(path) || (path.len() > 0 && path[0] == DOT && (path.len() == 1 || path[1]
        == SEPARATOR)) {
        1
    } else {
        0
    }
}

/// How much of a path is left before `end` without the separators and the dots for the current
/// directory that stand there.
pub open spec fn kept_end(path: Seq<u8>, end: int) -> int
    decreases end,
{
    if end <= body_start(path) {
        body_start(path)
    } else if path[end - 1] == SEPARATOR {
        kept_end(path, end - 1)
    } else if path[end - 1] == DOT && (end - 1 == body_start(path) || path[end - 2] == SEPARATOR) {
        kept_end(path, end - 1)
    } else {
        end
    }
}

/// Where the part begins that ends before `end`.
pub open spec fn part_start(path: Seq<u8>, end: int) -> int
    decreases end,
{
    if end <= body_start(path) || path[end - 1] == SEPARATOR {
        end
    } else {
        part_start(path, end - 1)
    }
}

/// The directory that a path stands in: what is before its last part. The root directory and the
/// empty path stand in none.
pub open spec fn parent_of(path: Seq<u8>) -> Option<Seq<u8>> {
    let end = kept_end(path, path.len() as int);
    if end > body_start(path) {
        Some(path.take(kept_end(path, part_start(path, end))))
    } else if path.len() > 0 && !absolute(path) {
        Some(Seq::empty())
    } else {
        None
    }
}

/// The last part of a path. The root directory and a path that ends in the directory above have
/// none.
pub open spec fn file_name_of(path: Seq<u8>) -> Option<Seq<u8>> {
    let end = kept_end(path, path.len() as int);
    let name = path.subrange(part_start(path, end), end);
    if end > body_start(path) && name != seq![DOT, DOT] {
        Some(name)
    } else {
        None
    }
}

/// A copy of some bytes.
pub fn copy_bytes(bytes: &Vec<u8>) -> (r: Vec<u8>)
    ensures
        r@ == bytes@,
{
    let mut r: Vec<u8> = Vec::new();
    append_bytes(&mut r, bytes.as_slice());
    proof {
        assert(r@ =~= bytes@);
    }
    r
}

/// Appends bytes.
pub fn append_bytes(to: &mut Vec<u8>, bytes: &[u8])
    ensures
        final(to)@ == old(to)@ + bytes@,
{
    let ghost before = to@;
    let mut i: usize = 0;
    proof {
        assert(before + bytes@.take(0) =~= before);
    }
    while i < bytes.len()
        invariant
            i <= bytes@.len(),
            to@ == before + bytes@.take(i as int),
        decreases bytes@.len() - i,
    {
        proof {
            assert((before + bytes@.take(i as int)).push(bytes@[i as int]) =~= before + bytes@.take(
                i + 1,
            ));
        }
        to.push(bytes[i]);
        i = i + 1;
    }
    proof {
        assert(bytes@.take(i as int) =~= bytes@);
    }
}

/// Whether two byte strings are equal.
pub fn same_bytes(a: &[u8], b: &[u8]) -> (r: bool)
    ensures
        r == (a@ == b@),
{
    if a.len() != b.len() {
        return false;
    }
    let mut i: usize = 0;
    while i < a.len()
        invariant
            a@.len() == b@.len(),
            i <= a@.len(),
            forall|j: int| 0 <= j < i ==> a@[j] == b@[j],
        decreases a@.len() - i,
    {
        if a[i] != b[i] {
            return false;
        }
        i = i + 1;
    }
    proof {
        assert(a@ =~= b@);
    }
    true
}

impl FilePath {
    /// The path with the given text.
    pub fn from_text(text: &str) -> (path: FilePath)
        ensures
            path@ == vstd::utf8::encode_utf8(text@),
    {
        let mut bytes: Vec<u8> = Vec::new();
        append_bytes(&mut bytes, text.as_bytes());
        proof {
            assert(bytes@ =~= vstd::utf8::encode_utf8(text@));
        }
        FilePath { bytes }
    }

    /// Whether this path starts at the root.
    pub fn is_absolute(&self) -> (r: bool)
        ensures
            r == absolute(self@),
    {
        self.bytes.len() > 0 && self.bytes[0] == SEPARATOR
    }

    /// The path `child` as seen from this one.
    pub fn join(&self, child: &FilePath) -> (path: FilePath)
        ensures
            path@ == joined(self@, child@),
    {
        if child.is_absolute() {
            return child.copy();
        }
        let mut bytes = copy_bytes(&self.bytes);
        let n: usize = bytes.len();
        if n > 0 && bytes[n - 1] != SEPARATOR {
            bytes.push(SEPARATOR);
        }
        append_bytes(&mut bytes, child.bytes.as_slice());
        FilePath { bytes }
    }

    fn find_body_start(&self) -> (r: usize)
        ensures
            r == body_start(self@),
            r <= self@.len(),
    {
        let n: usize = self.bytes.len();
        if n > 0 && (self.bytes[0] == SEPARATOR || (self.bytes[0] == DOT && (n == 1
            || self.bytes[1] == SEPARATOR))) {
            1
        } else {
            0
        }
    }

    fn find_kept_end(&self, end: usize) -> (r: usize)
        requires
            end <= self@.len(),
        ensures
            r == kept_end(self@, end as int),
            body_start(self@) <= r <= self@.len(),
    {
        let start: usize = self.find_body_start();
        let mut at: usize = end;
        while at > start && (self.bytes[at - 1] == SEPARATOR || (self.bytes[at - 1] == DOT && (at - 1
            == start || self.bytes[at - 2] == SEPARATOR)))
            invariant
                start == body_start(self@),
                start <= self@.len(),
                at <= end <= self@.len(),
                kept_end(self@, end as int) == kept_end(self@, at as int),
            decreases at,
        {
            at = at - 1;
        }
        if at < start {
            start
        } else {
            at
        }
    }

    fn find_part_start(&self, end: usize) -> (r: usize)
        requires
            body_start(self@) <= end <= self@.len(),
        ensures
            r == part_start(self@, end as int),
            body_start(self@) <= r <= end,
    {
        let start: usize = self.find_body_start();
        let mut at: usize = end;
        while at > start && self.bytes[at - 1] != SEPARATOR
            invariant
                start == body_start(self@),
                start <= at <= end <= self@.len(),
                part_start(self@, end as int) == part_start(self@, at as int),
            decreases at,
        {
            at = at - 1;
        }
        at
    }

    /// The bytes between two places.
    fn part(&self, from: usize, to: usize) -> (r: FilePath)
        requires
            from <= to <= self@.len(),
        ensures
            r@ == self@.subrange(from as int, to as int),
    {
        let mut bytes: Vec<u8> = Vec::new();
        let mut i: usize = from;
        while i < to
            invariant
                from <= i <= to <= self.bytes@.len(),
                bytes@ == self.bytes@.subrange(from as int, i as int),
            decreases to - i,
        {
            bytes.push(self.bytes[i]);
            proof {
                assert(bytes@ =~= self.bytes@.subrange(from as int, i + 1));
            }
            i = i + 1;
        }
        FilePath { bytes }
    }

    /// The directory that this path stands in.
    pub fn parent(&self) -> (r: Option<FilePath>)
        ensures
            match r {
                Some(path) => parent_of(self@) == Some(path@),
                None => parent_of(self@) is None,
            },
    {
        let end: usize = self.find_kept_end(self.bytes.len());
        if end > self.find_body_start() {
            let cut: usize = self.find_kept_end(self.find_part_start(end));
            let r = self.part(0, cut);
            assert(r@ =~= self@.take(cut as int));
            Some(r)
        } else if self.bytes.len() > 0 && !self.is_absolute() {
            let r = FilePath { bytes: Vec::new() };
            assert(r@ =~= Seq::<u8>::empty());
            Some(r)
        } else {
            None
        }
    }

    /// The last part of this path.
    pub fn file_name(&self) -> (r: Option<FilePath>)
        ensures
            match r {
                Some(name) => file_name_of(self@) == Some(name@),
                None => file_name_of(self@) is None,
            },
    {
        let end: usize = self.find_kept_end(self.bytes.len());
        if end <= self.find_body_start() {
            return None;
        }
        let from: usize = self.find_part_start(end);
        let name = self.part(from, end);
        if name.bytes.len() == 2 && name.bytes[0] == DOT && name.bytes[1] == DOT {
            assert(name@ =~= seq![DOT, DOT]);
            None
        } else {
            Some(name)
        }
    }

    /// A copy of this path.
    pub fn copy(&self) -> (path: FilePath)
        ensures
            path@ == self@,
    {
        FilePath { bytes: copy_bytes(&self.bytes) }
    }

    /// Whether two paths are the same byte string.
    pub fn same(&self, other: &FilePath) -> (r: bool)
        ensures
            r == (self@ == other@),
    {
        same_bytes(self.bytes.as_slice(), other.bytes.as_slice())
    }
}

/// A file that stands in a directory has it as its parent and its name as its last part.
pub proof fn law_joined_path_splits_again(directory: Seq<u8>, name: Seq<u8>)
    requires
        absolute(directory),
        kept_end(directory, directory.len() as int) == directory.len(),
        name.len() > 0,
        forall|i: int| 0 <= i < name.len() ==> name[i] != SEPARATOR,
        name != seq![DOT],
        name != seq![DOT, DOT],
    ensures
        parent_of(joined(directory, name)) == Some(directory),
        file_name_of(joined(directory, name)) == Some(name),
{
    let path = joined(directory, name);
    let len = path.len() as int;
    let from = len - name.len();
    assert(path.subrange(from, len) =~= name);
    assert(path[len - 1] == name.last());
    assert(kept_end(path, len) == len) by {
        if name.last() == DOT && len - 1 == from {
            assert(name =~= seq![DOT]);
        } else if name.len() > 1 {
            assert(path[len - 2] == name[name.len() - 2]);
        }
    }
    lemma_part_of_name(path, from, len);
    assert(path.take(directory.len() as int) =~= directory);
    lemma_kept_prefix(directory, path, directory.len() as int);
    if from > directory.len() {
        assert(path[from - 1] == SEPARATOR);
    }
    assert(kept_end(path, from) == directory.len());
}

proof fn lemma_part_of_name(path: Seq<u8>, from: int, end: int)
    requires
        absolute(path),
        1 <= from <= end <= path.len(),
        path[from - 1] == SEPARATOR,
        forall|i: int| from <= i < end ==> path[i] != SEPARATOR,
    ensures
        part_start(path, end) == from,
    decreases end,
{
    if end > from {
        lemma_part_of_name(path, from, end - 1);
    }
}

proof fn lemma_kept_prefix(directory: Seq<u8>, path: Seq<u8>, end: int)
    requires
        absolute(directory),
        0 <= end <= directory.len() <= path.len(),
        path.take(directory.len() as int) == directory,
    ensures
        kept_end(path, end) == kept_end(directory, end),
    decreases end,
{
    assert(forall|i: int| 0 <= i < directory.len() ==> directory[i] == path.take(directory.len() as int)[i]);
    if end > 1 {
        lemma_kept_prefix(directory, path, end - 1);
    }
}

} // verus!
