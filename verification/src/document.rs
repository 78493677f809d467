//! Ordered tables of documents: the in-memory form of one family of stored documents.

use vstd::prelude::*;

verus! {

/// The key of a document inside its family: the identities it belongs to, then its numbers.
///
/// Keys are ordered by `owner`, then `item`, then `number`, then `part`.
#[derive(Clone, Copy, Debug, PartialEq, Eq, Structural)]
pub struct DocumentKey {
    pub owner: u128,
    pub item: u128,
    pub number: u64,
    pub part: u64,
}

impl DocumentKey {
    /// Whether this key stands before `other`.
    pub open spec fn precedes(self, other: DocumentKey) -> bool {
        ||| self.owner < other.owner
        ||| self.owner == other.owner && self.item < other.item
        ||| self.owner == other.owner && self.item == other.item && self.number < other.number
        ||| self.owner == other.owner && self.item == other.item && self.number == other.number
            && self.part < other.part
    }

    /// Whether this key stands before `other`.
    pub fn is_before(&self, other: &DocumentKey) -> (r: bool)
        ensures
            r == self.precedes(*other),
    {
        if self.owner != other.owner {
            return self.owner < other.owner;
        }
        if self.item != other.item {
            return self.item < other.item;
        }
        if self.number != other.number {
            return self.number < other.number;
        }
        self.part < other.part
    }
}

/// One document with its key.
pub struct Document<V> {
    pub key: DocumentKey,
    pub value: V,
}

/// Whether the documents stand in strictly ascending key order.
pub open spec fn ascending<V>(documents: Seq<Document<V>>) -> bool {
    forall|i: int, j: int|
        0 <= i < j < documents.len() ==> (#[trigger] documents[i]).key.precedes(
            (#[trigger] documents[j]).key,
        )
}

/// Whether keys stand in strictly ascending order.
pub open spec fn ascending_keys(keys: Seq<DocumentKey>) -> bool {
    forall|i: int, j: int|
        0 <= i < j < keys.len() ==> (#[trigger] keys[i]).precedes(#[trigger] keys[j])
}

/// Whether a document with the given key is among `documents`.
pub open spec fn holds_key<V>(documents: Seq<Document<V>>, key: DocumentKey) -> bool {
    exists|i: int| 0 <= i < documents.len() && (#[trigger] documents[i]).key == key
}

/// The value of the document with the given key.
pub open spec fn value_of<V>(documents: Seq<Document<V>>, key: DocumentKey) -> V {
    documents[choose|i: int| 0 <= i < documents.len() && (#[trigger] documents[i]).key == key].value
}

/// A family of documents in ascending key order, at most one per key.
pub struct Table<V> {
    documents: Vec<Document<V>>,
}

impl<V> View for Table<V> {
    type V = Map<DocumentKey, V>;

    closed spec fn view(&self) -> Map<DocumentKey, V> {
        Map::new(
            |key: DocumentKey| holds_key(self.documents@, key),
            |key: DocumentKey| value_of(self.documents@, key),
        )
    }
}

impl<V> Table<V> {
    #[verifier::type_invariant]
    spec fn ordered(self) -> bool {
        ascending(self.documents@)
    }

    /// The keys of the table in ascending order.
    pub closed spec fn keys(self) -> Seq<DocumentKey> {
        Seq::new(self.documents@.len(), |i: int| self.documents@[i].key)
    }

    /// A table without documents.
    pub fn new() -> (t: Table<V>)
        ensures
            t@ == Map::<DocumentKey, V>::empty(),
            t.keys() == Seq::<DocumentKey>::empty(),
    {
        let t = Table { documents: Vec::new() };
        proof {
            assert(t@ =~= Map::<DocumentKey, V>::empty());
            assert(t.keys() =~= Seq::<DocumentKey>::empty());
        }
        t
    }

    /// The number of documents.
    pub fn len(&self) -> (n: usize)
        ensures
            n == self.keys().len(),
            ascending_keys(self.keys()),
            forall|key: DocumentKey| #[trigger]
                self@.dom().contains(key) <==> self.keys().contains(key),
    {
        proof {
            use_type_invariant(self);
            self.lemma_keys();
        }
        self.documents.len()
    }

    /// The key at an index.
    pub fn key_at(&self, index: usize) -> (key: DocumentKey)
        requires
            index < self.keys().len(),
        ensures
            key == self.keys()[index as int],
            self@.dom().contains(key),
            ascending_keys(self.keys()),
    {
        proof {
            use_type_invariant(self);
            self.lemma_at(index as int);
            assert forall|i: int, j: int| 0 <= i < j < self.keys().len() implies (
            #[trigger] self.keys()[i]).precedes(#[trigger] self.keys()[j]) by {
                assert(self.documents@[i].key.precedes(self.documents@[j].key));
            }
        }
        self.documents[index].key
    }

    proof fn lemma_at(&self, index: int)
        requires
            ascending(self.documents@),
            0 <= index < self.documents@.len(),
        ensures
            self@.dom().contains(self.documents@[index].key),
            self@[self.documents@[index].key] == self.documents@[index].value,
    {
        let key = self.documents@[index].key;
        assert(holds_key(self.documents@, key));
        let i = choose|i: int|
            0 <= i < self.documents@.len() && (#[trigger] self.documents@[i]).key == key;
        if i < index {
            assert(self.documents@[i].key.precedes(self.documents@[index].key));
        } else if index < i {
            assert(self.documents@[index].key.precedes(self.documents@[i].key));
        }
    }

    /// The keys are ascending and are exactly those of the documents.
    proof fn lemma_keys(&self)
        requires
            ascending(self.documents@),
        ensures
            ascending_keys(self.keys()),
            forall|key: DocumentKey| #[trigger]
                self@.dom().contains(key) <==> self.keys().contains(key),
    {
        assert forall|key: DocumentKey| #[trigger]
            self@.dom().contains(key) implies self.keys().contains(key) by {
            let i = choose|i: int|
                0 <= i < self.documents@.len() && (#[trigger] self.documents@[i]).key == key;
            assert(self.keys()[i] == key);
        }
        assert forall|key: DocumentKey| #[trigger]
            self.keys().contains(key) implies self@.dom().contains(key) by {
            let i = choose|i: int| 0 <= i < self.keys().len() && self.keys()[i] == key;
            assert(self.documents@[i].key == key);
        }
        assert forall|i: int, j: int| 0 <= i < j < self.keys().len() implies (
        #[trigger] self.keys()[i]).precedes(#[trigger] self.keys()[j]) by {
            assert(self.documents@[i].key.precedes(self.documents@[j].key));
        }
    }

    /// The number of documents whose key stands before `key`.
    fn rank(&self, key: &DocumentKey) -> (r: usize)
        ensures
            r <= self.documents@.len(),
            forall|i: int| 0 <= i < r ==> (#[trigger] self.documents@[i]).key.precedes(*key),
            forall|i: int|
                r <= i < self.documents@.len() ==> !(#[trigger] self.documents@[i]).key.precedes(
                    *key,
                ),
    {
        proof {
            use_type_invariant(self);
        }
        let mut low: usize = 0;
        let mut high: usize = self.documents.len();
        while low < high
            invariant
                ascending(self.documents@),
                low <= high <= self.documents@.len(),
                forall|i: int| 0 <= i < low ==> (#[trigger] self.documents@[i]).key.precedes(*key),
                forall|i: int|
                    high <= i < self.documents@.len() ==> !(
                    #[trigger] self.documents@[i]).key.precedes(*key),
            decreases high - low,
        {
            let middle: usize = low + (high - low) / 2;
            if self.documents[middle].key.is_before(key) {
                assert forall|i: int| 0 <= i < middle + 1 implies (
                #[trigger] self.documents@[i]).key.precedes(*key) by {
                    if i < middle {
                        assert(self.documents@[i].key.precedes(self.documents@[middle as int].key));
                    }
                }
                low = middle + 1;
            } else {
                assert forall|i: int| middle <= i < self.documents@.len() implies !(
                #[trigger] self.documents@[i]).key.precedes(*key) by {
                    if middle < i {
                        assert(self.documents@[middle as int].key.precedes(self.documents@[i].key));
                    }
                }
                high = middle;
            }
        }
        low
    }

    /// The document with the given key.
    pub fn get(&self, key: &DocumentKey) -> (r: Option<&V>)
        ensures
            match r {
                Some(value) => self@.dom().contains(*key) && *value == self@[*key],
                None => !self@.dom().contains(*key),
            },
    {
        proof {
            use_type_invariant(self);
        }
        let at: usize = self.rank(key);
        if at < self.documents.len() && self.documents[at].key == *key {
            proof {
                self.lemma_at(at as int);
            }
            Some(&self.documents[at].value)
        } else {
            None
        }
    }

    /// Whether there is a document with the given key.
    pub fn has(&self, key: &DocumentKey) -> (r: bool)
        ensures
            r == self@.dom().contains(*key),
    {
        self.get(key).is_some()
    }

    /// Stores a document under its key, in place of one that was there.
    pub fn put(&mut self, key: DocumentKey, value: V)
        ensures
            final(self)@ == old(self)@.insert(key, value),
    {
        proof {
            use_type_invariant(&*self);
        }
        let ghost before = self.documents@;
        let at: usize = self.rank(&key);
        let mut documents: Vec<Document<V>> = Vec::new();
        std::mem::swap(&mut documents, &mut self.documents);
        let document = Document { key, value };
        if at < documents.len() && documents[at].key == key {
            documents.set(at, document);
            proof {
                assert(ascending(documents@));
            }
        } else {
            documents.insert(at, document);
            proof {
                let after = documents@;
                assert forall|i: int, j: int| 0 <= i < j < after.len() implies (
                #[trigger] after[i]).key.precedes((#[trigger] after[j]).key) by {
                    let a = if i < at { before[i] } else if i == at { document } else {
                        before[i - 1]
                    };
                    let b = if j < at { before[j] } else if j == at { document } else {
                        before[j - 1]
                    };
                    assert(after[i] == a && after[j] == b);
                    if j == at {
                    } else if i == at {
                        assert(!before[j - 1].key.precedes(key));
                        if before[j - 1].key == key {
                            if j - 1 > at {
                                assert(before[at as int].key.precedes(before[j - 1].key));
                                assert(!before[at as int].key.precedes(key));
                            }
                        }
                    }
                }
            }
        }
        let ghost after = documents@;
        self.documents = documents;
        proof {
            lemma_put(before, after, at as int, key, value);
            assert(self@ =~= old(self)@.insert(key, value));
        }
    }

    /// Takes the document with the given key out of the table.
    pub fn take(&mut self, key: &DocumentKey) -> (r: Option<V>)
        ensures
            final(self)@ == old(self)@.remove(*key),
            match r {
                Some(value) => old(self)@.dom().contains(*key) && value == old(self)@[*key],
                None => !old(self)@.dom().contains(*key),
            },
    {
        proof {
            use_type_invariant(&*self);
        }
        let ghost before = self.documents@;
        let at: usize = self.rank(key);
        if at < self.documents.len() && self.documents[at].key == *key {
            proof {
                self.lemma_at(at as int);
            }
            let mut documents: Vec<Document<V>> = Vec::new();
            std::mem::swap(&mut documents, &mut self.documents);
            let document = documents.remove(at);
            let ghost after = documents@;
            proof {
                assert forall|i: int, j: int| 0 <= i < j < after.len() implies (
                #[trigger] after[i]).key.precedes((#[trigger] after[j]).key) by {
                    let a = if i < at { i } else { i + 1 };
                    let b = if j < at { j } else { j + 1 };
                    assert(after[i] == before[a] && after[j] == before[b]);
                    assert(before[a].key.precedes(before[b].key));
                }
            }
            self.documents = documents;
            proof {
                lemma_take(before, after, at as int);
                assert(self@ =~= old(self)@.remove(*key));
            }
            Some(document.value)
        } else {
            proof {
                assert(!holds_key(before, *key));
                assert(self@ =~= old(self)@.remove(*key));
            }
            None
        }
    }

    /// The keys that a range admits, in ascending order.
    pub fn select(&self, range: &KeyRange) -> (r: Vec<DocumentKey>)
        ensures
            r@ == listing(self@.dom(), *range),
            forall|i: int| #![trigger r@[i]]
                0 <= i < r@.len() ==> self@.dom().contains(r@[i]) && range.admits(r@[i]),
            ascending_keys(r@),
            forall|key: DocumentKey|
                self@.dom().contains(key) && range.admits(key) ==> #[trigger] r@.contains(key),
    {
        let ghost wanted = |key: DocumentKey| range.admits(key);
        let mut r: Vec<DocumentKey> = Vec::new();
        let mut i: usize = 0;
        proof {
            assert(self.keys().take(0).filter(wanted) =~= Seq::<DocumentKey>::empty()) by {
                reveal(Seq::filter);
            }
            use_type_invariant(self);
            self.lemma_keys();
        }
        while i < self.len()
            invariant
                i <= self.keys().len(),
                wanted == (|key: DocumentKey| range.admits(key)),
                r@ == self.keys().take(i as int).filter(wanted),
                ascending_keys(self.keys()),
                forall|key: DocumentKey| #[trigger]
                    self@.dom().contains(key) <==> self.keys().contains(key),
                forall|j: int| #![trigger r@[j]]
                    0 <= j < r@.len() ==> self@.dom().contains(r@[j]) && range.admits(r@[j])
                        && self.keys().take(i as int).contains(r@[j]),
                ascending_keys(r@),
                forall|j: int| #![trigger self.keys()[j]]
                    0 <= j < i && range.admits(self.keys()[j]) ==> r@.contains(self.keys()[j]),
            decreases self.keys().len() - i,
        {
            let key = self.key_at(i);
            let ghost earlier = r@;
            proof {
                let head = self.keys().take(i as int);
                let more = self.keys().take(i + 1);
                assert(more.drop_last() =~= head);
                reveal(Seq::filter);
                assert(more.filter(wanted) == if wanted(key) {
                    head.filter(wanted).push(key)
                } else {
                    head.filter(wanted)
                });
                assert forall|j: int| 0 <= j < earlier.len() implies more.contains(
                    #[trigger] earlier[j],
                ) by {
                    let n = choose|n: int| 0 <= n < head.len() && head[n] == earlier[j];
                    assert(more[n] == earlier[j]);
                }
                assert(more[i as int] == key);
            }
            if range.takes(&key) {
                r.push(key);
                proof {
                    assert forall|a: int, b: int| 0 <= a < b < r@.len() implies (
                    #[trigger] r@[a]).precedes(#[trigger] r@[b]) by {
                        if b == earlier.len() {
                            let head = self.keys().take(i as int);
                            assert(r@[a] == earlier[a]);
                            let n = choose|n: int| 0 <= n < head.len() && head[n] == earlier[a];
                            assert(self.keys()[n].precedes(self.keys()[i as int]));
                        } else {
                            assert(earlier[a].precedes(earlier[b]));
                        }
                    }
                    assert(r@[r@.len() - 1] == key);
                    assert forall|j: int|
                        0 <= j < i + 1 && range.admits(
                            #[trigger] self.keys()[j],
                        ) implies r@.contains(self.keys()[j]) by {
                        if j < i {
                            assert(earlier.contains(self.keys()[j]));
                            let n = choose|n: int|
                                0 <= n < earlier.len() && earlier[n] == self.keys()[j];
                            assert(r@[n] == self.keys()[j]);
                        }
                    }
                }
            }
            i = i + 1;
        }
        proof {
            assert(self.keys().take(i as int) =~= self.keys());
            assert forall|key: DocumentKey|
                self@.dom().contains(key) && range.admits(key) implies #[trigger] r@.contains(
                key,
            ) by {
                assert(self.keys().contains(key));
                let n = choose|n: int| 0 <= n < self.keys().len() && self.keys()[n] == key;
                assert(r@.contains(self.keys()[n]));
            }
            assert forall|key: DocumentKey| #[trigger] r@.contains(key) implies self@.dom().contains(
                key,
            ) && range.admits(key) by {
                let n = choose|n: int| 0 <= n < r@.len() && r@[n] == key;
                assert(r@[n] == key);
            }
            lemma_listing(r@, self@.dom(), *range);
        }
        r
    }

    /// The last keys that a range admits, at most `limit` of them, in ascending order, with
    /// whether it admits earlier ones.
    pub fn recent(&self, range: &KeyRange, limit: usize) -> (r: (Vec<DocumentKey>, bool))
        ensures
            r.0@ == last_of(listing(self@.dom(), *range), limit as nat),
            r.1 == (listing(self@.dom(), *range).len() > limit),
            forall|i: int| #![trigger r.0@[i]]
                0 <= i < r.0@.len() ==> self@.dom().contains(r.0@[i]) && range.admits(r.0@[i]),
            ascending_keys(r.0@),
    {
        let all = self.select(range);
        let older = all.len() > limit;
        let start: usize = if older {
            all.len() - limit
        } else {
            0
        };
        let mut r: Vec<DocumentKey> = Vec::new();
        let mut i: usize = start;
        while i < all.len()
            invariant
                start <= i <= all@.len(),
                r@ == all@.subrange(start as int, i as int),
            decreases all@.len() - i,
        {
            r.push(all[i]);
            proof {
                assert(r@ =~= all@.subrange(start as int, i + 1));
            }
            i = i + 1;
        }
        proof {
            assert(r@ =~= last_of(all@, limit as nat));
            assert forall|a: int, b: int| 0 <= a < b < r@.len() implies (
            #[trigger] r@[a]).precedes(#[trigger] r@[b]) by {
                assert(all@[a + start].precedes(all@[b + start]));
            }
        }
        (r, older)
    }
}

/// A range of keys: those of an owner and an item, where they are given, that stand before a key,
/// where one is given.
#[derive(Clone, Copy, Debug)]
pub struct KeyRange {
    pub owner: Option<u128>,
    pub item: Option<u128>,
    pub before: Option<DocumentKey>,
}

impl KeyRange {
    /// Whether a key lies in this range.
    pub open spec fn admits(self, key: DocumentKey) -> bool {
        &&& self.owner is Some ==> key.owner == self.owner->0
        &&& self.item is Some ==> key.item == self.item->0
        &&& self.before is Some ==> key.precedes(self.before->0)
    }

    /// The range of all keys of an owner.
    pub open spec fn of(owner: u128) -> KeyRange {
        KeyRange { owner: Some(owner), item: None, before: None }
    }

    /// The range of all keys of an owner.
    pub fn owned_by(owner: u128) -> (r: KeyRange)
        ensures
            r == KeyRange::of(owner),
    {
        KeyRange { owner: Some(owner), item: None, before: None }
    }

    /// Whether a key lies in this range.
    pub fn takes(&self, key: &DocumentKey) -> (r: bool)
        ensures
            r == self.admits(*key),
    {
        let owner_matches = match self.owner {
            Some(owner) => key.owner == owner,
            None => true,
        };
        let item_matches = match self.item {
            Some(item) => key.item == item,
            None => true,
        };
        let before_matches = match &self.before {
            Some(before) => key.is_before(before),
            None => true,
        };
        owner_matches && item_matches && before_matches
    }
}

/// Whether `keys` are the keys of `all` that a range admits, in ascending order.
pub open spec fn lists(keys: Seq<DocumentKey>, all: Set<DocumentKey>, range: KeyRange) -> bool {
    &&& ascending_keys(keys)
    &&& forall|key: DocumentKey| #[trigger]
        keys.contains(key) <==> all.contains(key) && range.admits(key)
}

/// The keys of `all` that a range admits, in ascending order.
pub open spec fn listing(all: Set<DocumentKey>, range: KeyRange) -> Seq<DocumentKey> {
    choose|keys: Seq<DocumentKey>| lists(keys, all, range)
}

/// Ascending keys are determined by which keys they are.
pub proof fn lemma_ascending_unique(a: Seq<DocumentKey>, b: Seq<DocumentKey>)
    requires
        ascending_keys(a),
        ascending_keys(b),
        forall|key: DocumentKey| #[trigger] a.contains(key) <==> b.contains(key),
    ensures
        a == b,
    decreases a.len(),
{
    if a.len() == 0 {
        if b.len() > 0 {
            assert(b.contains(b[0]));
            assert(a.contains(b[0]));
        }
        assert(a =~= b);
    } else {
        assert(a.contains(a[0]));
        let j = choose|j: int| 0 <= j < b.len() && b[j] == a[0];
        assert(b.contains(b[0]));
        assert(a.contains(b[0]));
        let k = choose|k: int| 0 <= k < a.len() && a[k] == b[0];
        if j > 0 {
            assert(b[0].precedes(b[j]));
            if k > 0 {
                assert(a[0].precedes(a[k]));
            }
        }
        assert(a[0] == b[0]);
        let x = a.drop_first();
        let y = b.drop_first();
        assert forall|key: DocumentKey| #[trigger] x.contains(key) implies y.contains(key) by {
            let n = choose|n: int| 0 <= n < x.len() && x[n] == key;
            assert(a[n + 1] == key);
            assert(a[0].precedes(a[n + 1]));
            assert(a.contains(key));
            let m = choose|m: int| 0 <= m < b.len() && b[m] == key;
            assert(m > 0);
            assert(y[m - 1] == key);
        }
        assert forall|key: DocumentKey| #[trigger] y.contains(key) implies x.contains(key) by {
            let n = choose|n: int| 0 <= n < y.len() && y[n] == key;
            assert(b[n + 1] == key);
            assert(b[0].precedes(b[n + 1]));
            assert(b.contains(key));
            assert(a.contains(key));
            let m = choose|m: int| 0 <= m < a.len() && a[m] == key;
            assert(m > 0);
            assert(x[m - 1] == key);
        }
        assert forall|i: int, j: int| 0 <= i < j < x.len() implies (#[trigger] x[i]).precedes(
            #[trigger] x[j],
        ) by {
            assert(a[i + 1].precedes(a[j + 1]));
        }
        assert forall|i: int, j: int| 0 <= i < j < y.len() implies (#[trigger] y[i]).precedes(
            #[trigger] y[j],
        ) by {
            assert(b[i + 1].precedes(b[j + 1]));
        }
        lemma_ascending_unique(x, y);
        assert(a =~= seq![a[0]] + x);
        assert(b =~= seq![b[0]] + y);
    }
}

/// A listing is any sequence with its keys in ascending order.
pub proof fn lemma_listing(keys: Seq<DocumentKey>, all: Set<DocumentKey>, range: KeyRange)
    requires
        lists(keys, all, range),
    ensures
        listing(all, range) == keys,
{
    let other = listing(all, range);
    assert(lists(other, all, range));
    assert forall|key: DocumentKey| #[trigger] other.contains(key) <==> keys.contains(key) by {
        assert(keys.contains(key) <==> all.contains(key) && range.admits(key));
        assert(other.contains(key) <==> all.contains(key) && range.admits(key));
    }
    lemma_ascending_unique(other, keys);
}

/// A key put in its place among ascending keys.
proof fn lemma_key_in_place(keys: Seq<DocumentKey>, key: DocumentKey) -> (r: Seq<DocumentKey>)
    requires
        ascending_keys(keys),
        !keys.contains(key),
    ensures
        ascending_keys(r),
        forall|other: DocumentKey| #[trigger]
            r.contains(other) <==> other == key || keys.contains(other),
    decreases keys.len(),
{
    if keys.len() == 0 || keys.last().precedes(key) {
        let r = keys.push(key);
        assert forall|i: int, j: int| 0 <= i < j < r.len() implies (#[trigger] r[i]).precedes(
            #[trigger] r[j],
        ) by {
            if j == keys.len() && i < keys.len() - 1 {
                assert(keys[i].precedes(keys[keys.len() - 1]));
            }
        }
        assert forall|other: DocumentKey| #[trigger] r.contains(other) <==> other == key
            || keys.contains(other) by {
            if keys.contains(other) {
                let n = choose|n: int| 0 <= n < keys.len() && keys[n] == other;
                assert(r[n] == other);
            }
            assert(r[keys.len() as int] == key);
        }
        r
    } else {
        let rest = keys.drop_last();
        assert(keys.contains(keys[keys.len() - 1]));
        assert forall|i: int, j: int| 0 <= i < j < rest.len() implies (#[trigger] rest[i]).precedes(
            #[trigger] rest[j],
        ) by {
            assert(keys[i].precedes(keys[j]));
        }
        assert(!rest.contains(key)) by {
            if rest.contains(key) {
                let n = choose|n: int| 0 <= n < rest.len() && rest[n] == key;
                assert(keys[n] == key);
            }
        }
        let placed = lemma_key_in_place(rest, key);
        let r = placed.push(keys.last());
        assert forall|i: int, j: int| 0 <= i < j < r.len() implies (#[trigger] r[i]).precedes(
            #[trigger] r[j],
        ) by {
            if j == placed.len() {
                assert(placed.contains(placed[i]));
                if placed[i] != key {
                    let n = choose|n: int| 0 <= n < rest.len() && rest[n] == placed[i];
                    assert(keys[n].precedes(keys[keys.len() - 1]));
                }
            }
        }
        assert forall|other: DocumentKey| #[trigger] r.contains(other) <==> other == key
            || keys.contains(other) by {
            assert(r[placed.len() as int] == keys.last());
            if r.contains(other) {
                let n = choose|n: int| 0 <= n < r.len() && r[n] == other;
                if n < placed.len() {
                    assert(placed[n] == other);
                    assert(placed.contains(other));
                    if other != key {
                        let m = choose|m: int| 0 <= m < rest.len() && rest[m] == other;
                        assert(keys[m] == other);
                    }
                }
            }
            if other == key || keys.contains(other) {
                if other != key && other != keys.last() {
                    let m = choose|m: int| 0 <= m < keys.len() && keys[m] == other;
                    assert(rest[m] == other);
                }
                if other != keys.last() {
                    assert(placed.contains(other));
                    let n = choose|n: int| 0 <= n < placed.len() && placed[n] == other;
                    assert(r[n] == other);
                }
            }
        }
        r
    }
}

proof fn lemma_some_listing(all: Set<DocumentKey>, range: KeyRange) -> (r: Seq<DocumentKey>)
    requires
        all.finite(),
    ensures
        lists(r, all, range),
    decreases all.len(),
{
    if all.len() == 0 {
        assert(all =~= Set::empty());
        let r = Seq::<DocumentKey>::empty();
        assert(lists(r, all, range));
        r
    } else {
        let key = all.choose();
        let rest = lemma_some_listing(all.remove(key), range);
        if range.admits(key) {
            assert(!rest.contains(key));
            let r = lemma_key_in_place(rest, key);
            assert(lists(r, all, range));
            r
        } else {
            assert(lists(rest, all, range));
            rest
        }
    }
}

/// The keys of finitely many documents can be listed: a listing has exactly those that its range
/// admits, in ascending order.
pub proof fn law_listings_are_complete(all: Set<DocumentKey>, range: KeyRange)
    requires
        all.finite(),
    ensures
        lists(listing(all, range), all, range),
{
    let keys = lemma_some_listing(all, range);
    lemma_listing(keys, all, range);
}

/// The last elements of a sequence, at most `limit` of them.
pub open spec fn last_of<T>(all: Seq<T>, limit: nat) -> Seq<T> {
    if all.len() > limit {
        all.skip(all.len() - limit)
    } else {
        all
    }
}

proof fn lemma_put<V>(
    before: Seq<Document<V>>,
    after: Seq<Document<V>>,
    at: int,
    key: DocumentKey,
    value: V,
)
    requires
        ascending(before),
        ascending(after),
        0 <= at <= before.len(),
        at < before.len() && before[at].key == key ==> after == before.update(
            at,
            Document { key, value },
        ),
        !(at < before.len() && before[at].key == key) ==> after == before.insert(
            at,
            Document { key, value },
        ),
    ensures
        forall|k: DocumentKey| #[trigger]
            holds_key(after, k) <==> holds_key(before, k) || k == key,
        value_of(after, key) == value,
        forall|k: DocumentKey|
            holds_key(before, k) && k != key ==> #[trigger] value_of(after, k) == value_of(
                before,
                k,
            ),
{
    let replaced = at < before.len() && before[at].key == key;
    assert(after[at].key == key && after[at].value == value);
    assert(holds_key(after, key));
    lemma_value_of(after, at);
    assert forall|k: DocumentKey| #[trigger] holds_key(after, k) implies holds_key(before, k) || k
        == key by {
        let i = choose|i: int| 0 <= i < after.len() && (#[trigger] after[i]).key == k;
        if i < at {
            assert(before[i].key == k);
        } else if i > at {
            if replaced {
                assert(before[i].key == k);
            } else {
                assert(before[i - 1].key == k);
            }
        }
    }
    assert forall|k: DocumentKey| holds_key(before, k) && k != key implies #[trigger] value_of(
        after,
        k,
    ) == value_of(before, k) && holds_key(after, k) by {
        let i = choose|i: int| 0 <= i < before.len() && (#[trigger] before[i]).key == k;
        let j = if i < at || replaced { i } else { i + 1 };
        assert(after[j] == before[i]);
        lemma_value_of(before, i);
        lemma_value_of(after, j);
    }
    assert forall|k: DocumentKey| holds_key(before, k) || k == key implies #[trigger] holds_key(
        after,
        k,
    ) by {
        if k != key {
            assert(value_of(after, k) == value_of(before, k));
        }
    }
}

proof fn lemma_take<V>(before: Seq<Document<V>>, after: Seq<Document<V>>, at: int)
    requires
        ascending(before),
        ascending(after),
        0 <= at < before.len(),
        after == before.remove(at),
    ensures
        forall|k: DocumentKey| #[trigger]
            holds_key(after, k) <==> holds_key(before, k) && k != before[at].key,
        forall|k: DocumentKey|
            holds_key(before, k) && k != before[at].key ==> #[trigger] value_of(after, k)
                == value_of(before, k),
{
    assert forall|k: DocumentKey| #[trigger] holds_key(after, k) implies holds_key(before, k) && k
        != before[at].key by {
        let i = choose|i: int| 0 <= i < after.len() && (#[trigger] after[i]).key == k;
        let j = if i < at { i } else { i + 1 };
        assert(after[i] == before[j]);
        if j < at {
            assert(before[j].key.precedes(before[at].key));
        } else {
            assert(before[at].key.precedes(before[j].key));
        }
    }
    assert forall|k: DocumentKey| holds_key(before, k) && k
        != before[at].key implies #[trigger] value_of(after, k) == value_of(before, k) && holds_key(
        after,
        k,
    ) by {
        let i = choose|i: int| 0 <= i < before.len() && (#[trigger] before[i]).key == k;
        let j = if i < at { i } else { i - 1 };
        assert(after[j] == before[i]);
        lemma_value_of(before, i);
        lemma_value_of(after, j);
    }
    assert forall|k: DocumentKey|
        holds_key(before, k) && k != before[at].key implies #[trigger] holds_key(after, k) by {
        assert(value_of(after, k) == value_of(before, k));
    }
}

proof fn lemma_value_of<V>(documents: Seq<Document<V>>, at: int)
    requires
        ascending(documents),
        0 <= at < documents.len(),
    ensures
        holds_key(documents, documents[at].key),
        value_of(documents, documents[at].key) == documents[at].value,
{
    let key = documents[at].key;
    let i = choose|i: int| 0 <= i < documents.len() && (#[trigger] documents[i]).key == key;
    assert(documents[at].key == key);
    if i < at {
        assert(documents[i].key.precedes(documents[at].key));
    } else if at < i {
        assert(documents[at].key.precedes(documents[i].key));
    }
}

} // verus!
