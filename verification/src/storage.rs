//! The storage map: the key-value state of one program, held in key order, and
//! its serialized form.

use crate::bytes::{key_order, lemma_lex_irreflexive, lemma_lex_transitive, lemma_lex_trichotomy, lex_less, KeyOrder};
use crate::codec::{
    entries_fit, entries_fit_in, entries_view, lemma_storage_encoding_injective,
    scale_decode_entries, scale_encode_entries, storage_encoding, MAX_LEN,
};
use vstd::prelude::*;

verus! {

/// The keys grow strictly from each entry to the next, so no key occurs twice.
pub open spec fn strictly_sorted(es: Seq<(Seq<u8>, Seq<u8>)>) -> bool {
    forall|i: int, j: int|
        #![trigger es[i], es[j]]
        0 <= i < j < es.len() ==> lex_less(es[i].0, es[j].0)
}

/// What a storage map may hold: entries in strict key order that the
/// serialized form has room for.
pub open spec fn well_formed(es: Seq<(Seq<u8>, Seq<u8>)>) -> bool {
    entries_fit(es) && strictly_sorted(es)
}

/// Some entry has this key.
pub open spec fn has_key(es: Seq<(Seq<u8>, Seq<u8>)>, key: Seq<u8>) -> bool {
    exists|i: int| 0 <= i < es.len() && (#[trigger] es[i]).0 == key
}

/// The place of an entry with this key.
pub open spec fn index_of(es: Seq<(Seq<u8>, Seq<u8>)>, key: Seq<u8>) -> int {
    choose|i: int| 0 <= i < es.len() && (#[trigger] es[i]).0 == key
}

/// The map that a sequence of entries stands for.
pub open spec fn map_of(es: Seq<(Seq<u8>, Seq<u8>)>) -> Map<Seq<u8>, Seq<u8>> {
    Map::new(|key: Seq<u8>| has_key(es, key), |key: Seq<u8>| es[index_of(es, key)].1)
}

/// The entries of a map, in key order.
pub open spec fn entries_of(m: Map<Seq<u8>, Seq<u8>>) -> Seq<(Seq<u8>, Seq<u8>)> {
    choose|es: Seq<(Seq<u8>, Seq<u8>)>| well_formed(es) && map_of(es) == m
}

/// The serialized form of a map: that of its entries in key order.
pub open spec fn encoding_of(m: Map<Seq<u8>, Seq<u8>>) -> Seq<u8> {
    storage_encoding(entries_of(m))
}

/// The bytes are the serialized form of some storage map.
pub open spec fn is_storage_encoding(bytes: Seq<u8>) -> bool {
    exists|es: Seq<(Seq<u8>, Seq<u8>)>| well_formed(es) && #[trigger] storage_encoding(es) == bytes
}

/// The entries that bytes are the serialized form of, if they are that of a
/// storage map.
pub open spec fn decoding_of(bytes: Seq<u8>) -> Option<Seq<(Seq<u8>, Seq<u8>)>> {
    if is_storage_encoding(bytes) {
        Some(
            choose|es: Seq<(Seq<u8>, Seq<u8>)>|
                well_formed(es) && #[trigger] storage_encoding(es) == bytes,
        )
    } else {
        None
    }
}

/// The serialized form of well-formed entries is read back as those
/// entries.
pub proof fn lemma_round_trip(es: Seq<(Seq<u8>, Seq<u8>)>)
    requires
        well_formed(es),
    ensures
        decoding_of(storage_encoding(es)) == Some(es),
{
    let bytes = storage_encoding(es);
    assert(is_storage_encoding(bytes));
    lemma_storage_encoding_injective(decoding_of(bytes)->0, es);
}

/// Writing inverts reading: bytes that are read as a storage map are the
/// serialized form of that map, so nothing of them is left out.
pub proof fn law_decoded_bytes_are_canonical(bytes: Seq<u8>)
    requires
        decoding_of(bytes) is Some,
    ensures
        well_formed(decoding_of(bytes)->0),
        storage_encoding(decoding_of(bytes)->0) == bytes,
{
}

/// In a sorted sequence each key has one place.
pub proof fn lemma_sorted_keys_distinct(es: Seq<(Seq<u8>, Seq<u8>)>, i: int, j: int)
    requires
        strictly_sorted(es),
        0 <= i < es.len(),
        0 <= j < es.len(),
        es[i].0 == es[j].0,
    ensures
        i == j,
{
    lemma_lex_irreflexive(es[i].0);
    if i < j {
        assert(lex_less(es[i].0, es[j].0));
    } else if j < i {
        assert(lex_less(es[j].0, es[i].0));
    }
}

/// The map of a sorted sequence holds each entry's value under its key.
pub proof fn lemma_map_of_entry(es: Seq<(Seq<u8>, Seq<u8>)>, i: int)
    requires
        strictly_sorted(es),
        0 <= i < es.len(),
    ensures
        map_of(es).contains_key(es[i].0),
        map_of(es)[es[i].0] == es[i].1,
{
    let key = es[i].0;
    assert(has_key(es, key));
    lemma_sorted_keys_distinct(es, i, index_of(es, key));
}

/// The bytes are not the serialized form of a storage map.
#[derive(Clone, Copy, Debug, PartialEq, Eq, Structural)]
pub struct StorageDecodeError;

/// The key-value state of one program: byte-string keys, each with one
/// byte-string value, held in the dictionary order of the keys.
#[derive(Debug)]
pub struct StorageMap {
    entries: Vec<(Vec<u8>, Vec<u8>)>,
}

impl View for StorageMap {
    type V = Map<Seq<u8>, Seq<u8>>;

    /// The map from each key to its value.
    open spec fn view(&self) -> Map<Seq<u8>, Seq<u8>> {
        map_of(self.entries())
    }
}

impl StorageMap {
    /// The entries in key order.
    pub closed spec fn entries(&self) -> Seq<(Seq<u8>, Seq<u8>)> {
        entries_view(self.entries@)
    }

    /// The entries are in strict key order and fit the serialized form. Every
    /// storage map that a program can hold is well formed.
    #[verifier::type_invariant]
    pub open spec fn wf(&self) -> bool {
        well_formed(self.entries())
    }

    /// The empty map.
    pub fn new() -> (m: StorageMap)
        ensures
            m.wf(),
            m.entries() == Seq::<(Seq<u8>, Seq<u8>)>::empty(),
            m@ == Map::<Seq<u8>, Seq<u8>>::empty(),
    {
        let m = StorageMap { entries: Vec::new() };
        assert(m.entries() =~= Seq::<(Seq<u8>, Seq<u8>)>::empty());
        assert(m@ =~= Map::<Seq<u8>, Seq<u8>>::empty());
        m
    }

    /// The number of entries.
    pub fn len(&self) -> (n: usize)
        ensures
            n == self.entries().len(),
            n <= MAX_LEN,
    {
        proof {
            use_type_invariant(self);
        }
        self.entries.len()
    }

    /// The place of `key` among the entries: where it stands if `found`,
    /// else where it would have to be put.
    fn locate(&self, key: &[u8]) -> (r: (usize, bool))
        ensures
            r.0 <= self.entries().len(),
            forall|i: int| 0 <= i < r.0 ==> lex_less(#[trigger] self.entries()[i].0, key@),
            r.1 ==> r.0 < self.entries().len() && self.entries()[r.0 as int].0 == key@,
            !r.1 ==> forall|i: int|
                r.0 <= i < self.entries().len() ==> lex_less(key@, #[trigger] self.entries()[i].0),
    {
        proof {
            use_type_invariant(self);
        }
        let ghost es = self.entries();
        let mut lo: usize = 0;
        let mut hi: usize = self.entries.len();
        while lo < hi
            invariant
                es == self.entries(),
                es.len() == self.entries@.len(),
                strictly_sorted(es),
                lo <= hi <= es.len(),
                forall|i: int| 0 <= i < lo ==> lex_less(#[trigger] es[i].0, key@),
                forall|i: int| hi <= i < es.len() ==> lex_less(key@, #[trigger] es[i].0),
            decreases hi - lo,
        {
            let mid = lo + (hi - lo) / 2;
            assert(es[mid as int].0 == self.entries@[mid as int].0@);
            match key_order(self.entries[mid].0.as_slice(), key) {
                KeyOrder::Same => {
                    return (mid, true);
                },
                KeyOrder::Before => {
                    assert forall|i: int| 0 <= i < mid + 1 implies lex_less(
                        #[trigger] es[i].0,
                        key@,
                    ) by {
                        if i < mid {
                            assert(lex_less(es[i].0, es[mid as int].0));
                            lemma_lex_transitive(es[i].0, es[mid as int].0, key@);
                        }
                    }
                    lo = mid + 1;
                },
                KeyOrder::After => {
                    assert forall|i: int| mid <= i < es.len() implies lex_less(
                        key@,
                        #[trigger] es[i].0,
                    ) by {
                        if mid < i {
                            assert(lex_less(es[mid as int].0, es[i].0));
                            lemma_lex_transitive(key@, es[mid as int].0, es[i].0);
                        }
                    }
                    hi = mid;
                },
            }
        }
        (lo, false)
    }

    /// The value stored under `key`, if there is one.
    pub fn get(&self, key: &[u8]) -> (r: Option<&Vec<u8>>)
        ensures
            match r {
                Some(value) => self@.contains_key(key@) && value@ == self@[key@],
                None => !self@.contains_key(key@),
            },
    {
        proof {
            use_type_invariant(self);
        }
        let (at, found) = self.locate(key);
        if found {
            proof {
                lemma_map_of_entry(self.entries(), at as int);
            }
            Some(&self.entries[at].1)
        } else {
            proof {
                lemma_absent(self.entries(), key@, at as int);
            }
            None
        }
    }

    /// Stores `value` under `key`, in place of the value that was there, if
    /// any. Nothing is stored, and `false` is returned, only where the
    /// serialized form has no room: for a key or a value of more than
    /// `MAX_LEN` bytes, or for one more entry beside `MAX_LEN` others.
    pub fn insert(&mut self, key: Vec<u8>, value: Vec<u8>) -> (stored: bool)
        ensures
            final(self).wf(),
            stored == (key@.len() <= MAX_LEN && value@.len() <= MAX_LEN && (old(self)@.contains_key(
                key@,
            ) || old(self).entries().len() < MAX_LEN)),
            stored ==> final(self)@ == old(self)@.insert(key@, value@),
            stored ==> final(self).entries().len() == old(self).entries().len() + (if old(
                self,
            )@.contains_key(key@) {
                0int
            } else {
                1int
            }),
            !stored ==> final(self).entries() == old(self).entries(),
    {
        proof {
            use_type_invariant(&*self);
        }
        if key.len() > MAX_LEN || value.len() > MAX_LEN {
            return false;
        }
        let (at, found) = self.locate(key.as_slice());
        let ghost es = self.entries();
        if found {
            proof {
                lemma_map_of_entry(es, at as int);
                lemma_overwrite(es, at as int, value@);
                assert(entries_view(self.entries@.update(at as int, (key, value))) =~= es.update(
                    at as int,
                    (key@, value@),
                ));
            }
            // the entries are taken out while they are changed
            let mut entries: Vec<(Vec<u8>, Vec<u8>)> = Vec::new();
            std::mem::swap(&mut self.entries, &mut entries);
            entries[at] = (key, value);
            self.entries = entries;
            true
        } else {
            proof {
                lemma_absent(es, key@, at as int);
            }
            if self.entries.len() >= MAX_LEN {
                return false;
            }
            proof {
                lemma_insert_new(es, at as int, key@, value@);
                assert(entries_view(self.entries@.insert(at as int, (key, value))) =~= es.insert(
                    at as int,
                    (key@, value@),
                ));
            }
            let mut entries: Vec<(Vec<u8>, Vec<u8>)> = Vec::new();
            std::mem::swap(&mut self.entries, &mut entries);
            entries.insert(at, (key, value));
            self.entries = entries;
            true
        }
    }

    /// Takes out the entry of `key` and returns its value, if there was one.
    pub fn remove(&mut self, key: &[u8]) -> (r: Option<Vec<u8>>)
        ensures
            final(self).wf(),
            final(self)@ == old(self)@.remove(key@),
            match r {
                Some(value) => old(self)@.contains_key(key@) && value@ == old(self)@[key@]
                    && final(self).entries().len() == old(self).entries().len() - 1,
                None => !old(self)@.contains_key(key@) && final(self).entries() == old(
                    self,
                ).entries(),
            },
    {
        proof {
            use_type_invariant(&*self);
        }
        let (at, found) = self.locate(key);
        let ghost es = self.entries();
        if found {
            proof {
                lemma_map_of_entry(es, at as int);
                lemma_remove(es, at as int);
                assert(entries_view(self.entries@.remove(at as int)) =~= es.remove(at as int));
            }
            let mut entries: Vec<(Vec<u8>, Vec<u8>)> = Vec::new();
            std::mem::swap(&mut self.entries, &mut entries);
            let gone = entries.remove(at);
            self.entries = entries;
            Some(gone.1)
        } else {
            proof {
                lemma_absent(es, key@, at as int);
                assert(self@.remove(key@) =~= self@);
            }
            None
        }
    }

    /// The serialized form: the number of entries in compact form, then the
    /// entries in key order, each as its key and its value with their lengths
    /// in front. Two maps with the same content give the same bytes.
    pub fn encode(&self) -> (bytes: Vec<u8>)
        ensures
            bytes@ == storage_encoding(self.entries()),
            bytes@ == encoding_of(self@),
            is_storage_encoding(bytes@),
    {
        proof {
            use_type_invariant(self);
            lemma_entries_of_view(*self);
        }
        scale_encode_entries(&self.entries)
    }

    /// Reads a storage map from its serialized form. Bytes that are the
    /// serialized form of a storage map give that map; all other bytes are
    /// refused: unfinished bytes, bytes with something behind the last entry,
    /// a length that is not in its shortest form, keys out of order or twice.
    pub fn decode(bytes: &[u8]) -> (r: Result<StorageMap, StorageDecodeError>)
        ensures
            match r {
                Ok(m) => m.wf() && decoding_of(bytes@) == Some(m.entries()) && storage_encoding(
                    m.entries(),
                ) == bytes@,
                Err(_) => decoding_of(bytes@) is None,
            },
    {
        proof {
            if is_storage_encoding(bytes@) {
                let es = decoding_of(bytes@)->0;
                assert(entries_fit(es) && storage_encoding(es) == bytes@);
            }
        }
        let entries = match scale_decode_entries(bytes) {
            Some(entries) => entries,
            None => {
                return Err(StorageDecodeError);
            },
        };
        if !entries_fit_in(&entries) {
            return Err(StorageDecodeError);
        }
        if !sorted_in(&entries) {
            return Err(StorageDecodeError);
        }
        let again = scale_encode_entries(&entries);
        match key_order(again.as_slice(), bytes) {
            KeyOrder::Same => {
                proof {
                    lemma_round_trip(entries_view(entries@));
                }
                Ok(StorageMap { entries })
            },
            _ => Err(StorageDecodeError),
        }
    }
}

/// A key that stands between two neighbours of a sorted sequence is not in it.
pub proof fn lemma_absent(es: Seq<(Seq<u8>, Seq<u8>)>, key: Seq<u8>, at: int)
    requires
        0 <= at <= es.len(),
        forall|i: int| 0 <= i < at ==> lex_less(#[trigger] es[i].0, key),
        forall|i: int| at <= i < es.len() ==> lex_less(key, #[trigger] es[i].0),
    ensures
        !has_key(es, key),
        !map_of(es).contains_key(key),
{
    lemma_lex_irreflexive(key);
    assert forall|i: int| 0 <= i < es.len() implies (#[trigger] es[i]).0 != key by {
        if i < at {
            assert(lex_less(es[i].0, key));
        } else {
            assert(lex_less(key, es[i].0));
        }
    }
}

/// Whether the keys grow strictly from each entry to the next.
pub fn sorted_in(entries: &Vec<(Vec<u8>, Vec<u8>)>) -> (sorted: bool)
    ensures
        sorted == strictly_sorted(entries_view(entries@)),
{
    let ghost es = entries_view(entries@);
    if entries.len() < 2 {
        return true;
    }
    let mut i: usize = 1;
    while i < entries.len()
        invariant
            1 <= i <= entries@.len(),
            es == entries_view(entries@),
            strictly_sorted(es.take(i as int)),
        decreases entries@.len() - i,
    {
        match key_order(entries[i - 1].0.as_slice(), entries[i].0.as_slice()) {
            KeyOrder::Before => {
                proof {
                    lemma_sorted_push(es.take(i as int), es[i as int]);
                    assert(es.take(i as int).push(es[i as int]) =~= es.take(i + 1));
                }
            },
            _ => {
                proof {
                    lemma_lex_trichotomy(es[i - 1].0, es[i as int].0);
                    lemma_lex_irreflexive(es[i as int].0);
                    if strictly_sorted(es) {
                        assert(lex_less(es[i - 1].0, es[i as int].0));
                    }
                }
                return false;
            },
        }
        i = i + 1;
    }
    proof {
        assert(es.take(i as int) =~= es);
    }
    true
}

/// A sorted sequence stays sorted when an entry with a greater key than its
/// last is put behind it.
pub proof fn lemma_sorted_push(es: Seq<(Seq<u8>, Seq<u8>)>, e: (Seq<u8>, Seq<u8>))
    requires
        strictly_sorted(es),
        es.len() > 0,
        lex_less(es.last().0, e.0),
    ensures
        strictly_sorted(es.push(e)),
{
    let ns = es.push(e);
    assert forall|i: int, j: int| 0 <= i < j < ns.len() implies lex_less(ns[i].0, ns[j].0) by {
        if j < es.len() {
            assert(lex_less(es[i].0, es[j].0));
        } else if i < es.len() - 1 {
            assert(lex_less(es[i].0, es[es.len() - 1].0));
            lemma_lex_transitive(es[i].0, es.last().0, e.0);
        }
    }
}

/// Putting a new key at its place keeps the order and adds the key to the map.
pub proof fn lemma_insert_new(es: Seq<(Seq<u8>, Seq<u8>)>, at: int, key: Seq<u8>, value: Seq<u8>)
    requires
        well_formed(es),
        es.len() < MAX_LEN,
        key.len() <= MAX_LEN,
        value.len() <= MAX_LEN,
        0 <= at <= es.len(),
        forall|i: int| 0 <= i < at ==> lex_less(#[trigger] es[i].0, key),
        forall|i: int| at <= i < es.len() ==> lex_less(key, #[trigger] es[i].0),
    ensures
        well_formed(es.insert(at, (key, value))),
        map_of(es.insert(at, (key, value))) == map_of(es).insert(key, value),
{
    let ns = es.insert(at, (key, value));
    assert forall|i: int, j: int| 0 <= i < j < ns.len() implies lex_less(ns[i].0, ns[j].0) by {
        let a = if i < at { i } else { i - 1 };
        let b = if j < at { j } else { j - 1 };
        if i == at {
            assert(lex_less(key, es[b].0));
        } else if j == at {
            assert(lex_less(es[a].0, key));
        } else {
            assert(lex_less(es[a].0, es[b].0));
        }
    }
    assert forall|i: int| 0 <= i < ns.len() implies (#[trigger] ns[i]).0.len() <= MAX_LEN
        && ns[i].1.len() <= MAX_LEN by {
        if i < at {
            assert(ns[i] == es[i]);
        } else if i > at {
            assert(ns[i] == es[i - 1]);
        }
    }
    assert forall|x: Seq<u8>| has_key(ns, x) == (x == key || has_key(es, x)) by {
        if has_key(ns, x) {
            let i = index_of(ns, x);
            if i < at {
                assert(es[i].0 == x);
            } else if i > at {
                assert(es[i - 1].0 == x);
            }
        }
        if x == key {
            assert(ns[at].0 == x);
        }
        if has_key(es, x) {
            let i = index_of(es, x);
            if i < at {
                assert(ns[i].0 == x);
            } else {
                assert(ns[i + 1].0 == x);
            }
        }
    }
    assert forall|x: Seq<u8>| has_key(ns, x) implies map_of(ns)[x] == map_of(es).insert(
        key,
        value,
    )[x] by {
        let i = index_of(ns, x);
        lemma_map_of_entry(ns, i);
        lemma_absent(es, key, at);
        if i < at {
            assert(ns[i] == es[i]);
            lemma_map_of_entry(es, i);
        } else if i > at {
            assert(ns[i] == es[i - 1]);
            lemma_map_of_entry(es, i - 1);
        }
    }
    assert(map_of(ns) =~= map_of(es).insert(key, value));
}

/// Replacing the value of an entry keeps the order and changes that value in
/// the map.
pub proof fn lemma_overwrite(es: Seq<(Seq<u8>, Seq<u8>)>, at: int, value: Seq<u8>)
    requires
        well_formed(es),
        0 <= at < es.len(),
        value.len() <= MAX_LEN,
    ensures
        well_formed(es.update(at, (es[at].0, value))),
        map_of(es.update(at, (es[at].0, value))) == map_of(es).insert(es[at].0, value),
{
    let key = es[at].0;
    let ns = es.update(at, (key, value));
    assert forall|i: int, j: int| 0 <= i < j < ns.len() implies lex_less(ns[i].0, ns[j].0) by {
        assert(lex_less(es[i].0, es[j].0));
    }
    assert forall|i: int| 0 <= i < ns.len() implies (#[trigger] ns[i]).0.len() <= MAX_LEN
        && ns[i].1.len() <= MAX_LEN by {
        assert(ns[i].0 == es[i].0);
        if i != at {
            assert(ns[i] == es[i]);
        }
    }
    assert forall|x: Seq<u8>| has_key(ns, x) == has_key(es, x) by {
        if has_key(ns, x) {
            let i = index_of(ns, x);
            assert(es[i].0 == x);
        }
        if has_key(es, x) {
            let i = index_of(es, x);
            assert(ns[i].0 == x);
        }
    }
    assert(has_key(es, key));
    assert forall|x: Seq<u8>| has_key(ns, x) implies map_of(ns)[x] == map_of(es).insert(
        key,
        value,
    )[x] by {
        let i = index_of(ns, x);
        lemma_map_of_entry(ns, i);
        if i != at {
            assert(ns[i] == es[i]);
            lemma_map_of_entry(es, i);
            if x == key {
                lemma_sorted_keys_distinct(es, i, at);
            }
        }
    }
    assert(map_of(ns) =~= map_of(es).insert(key, value));
}

/// Taking an entry out keeps the order and takes its key out of the map.
pub proof fn lemma_remove(es: Seq<(Seq<u8>, Seq<u8>)>, at: int)
    requires
        well_formed(es),
        0 <= at < es.len(),
    ensures
        well_formed(es.remove(at)),
        map_of(es.remove(at)) == map_of(es).remove(es[at].0),
{
    let key = es[at].0;
    let ns = es.remove(at);
    assert forall|i: int, j: int| 0 <= i < j < ns.len() implies lex_less(ns[i].0, ns[j].0) by {
        let a = if i < at { i } else { i + 1 };
        let b = if j < at { j } else { j + 1 };
        assert(lex_less(es[a].0, es[b].0));
    }
    assert forall|i: int| 0 <= i < ns.len() implies (#[trigger] ns[i]).0.len() <= MAX_LEN
        && ns[i].1.len() <= MAX_LEN by {
        if i < at {
            assert(ns[i] == es[i]);
        } else {
            assert(ns[i] == es[i + 1]);
        }
    }
    assert forall|x: Seq<u8>| has_key(ns, x) == (x != key && has_key(es, x)) by {
        if has_key(ns, x) {
            let i = index_of(ns, x);
            let a = if i < at { i } else { i + 1 };
            assert(es[a].0 == x);
            if x == key {
                lemma_sorted_keys_distinct(es, a, at);
            }
        }
        if x != key && has_key(es, x) {
            let i = index_of(es, x);
            if i < at {
                assert(ns[i].0 == x);
            } else {
                assert(ns[i - 1].0 == x);
            }
        }
    }
    assert forall|x: Seq<u8>| has_key(ns, x) implies map_of(ns)[x] == map_of(es).remove(key)[x] by {
        let i = index_of(ns, x);
        let a = if i < at { i } else { i + 1 };
        lemma_map_of_entry(ns, i);
        assert(ns[i] == es[a]);
        lemma_map_of_entry(es, a);
    }
    assert(map_of(ns) =~= map_of(es).remove(key));
}

/// Sorted entries are determined by the map they stand for.
pub proof fn lemma_entries_of_map(a: Seq<(Seq<u8>, Seq<u8>)>, b: Seq<(Seq<u8>, Seq<u8>)>)
    requires
        well_formed(a),
        well_formed(b),
        map_of(a) == map_of(b),
    ensures
        a == b,
    decreases a.len(),
{
    if a.len() == 0 || b.len() == 0 {
        if b.len() > 0 {
            lemma_map_of_entry(b, 0);
            assert(has_key(a, b[0].0));
        }
        if a.len() > 0 {
            lemma_map_of_entry(a, 0);
            assert(has_key(b, a[0].0));
        }
        assert(a =~= b);
    } else {
        let la = a.len() - 1;
        let lb = b.len() - 1;
        lemma_map_of_entry(a, la);
        lemma_map_of_entry(b, lb);
        assert(has_key(b, a[la].0));
        assert(has_key(a, b[lb].0));
        let j = index_of(b, a[la].0);
        let k = index_of(a, b[lb].0);
        if j < lb {
            assert(lex_less(b[j].0, b[lb].0));
        }
        if k < la {
            assert(lex_less(a[k].0, a[la].0));
        }
        lemma_lex_trichotomy(a[la].0, b[lb].0);
        assert(a[la].0 == b[lb].0);
        assert(a[la] == b[lb]);
        lemma_remove(a, la);
        lemma_remove(b, lb);
        assert(a.remove(la) =~= a.drop_last());
        assert(b.remove(lb) =~= b.drop_last());
        lemma_entries_of_map(a.drop_last(), b.drop_last());
        assert(a =~= a.drop_last().push(a[la]));
        assert(b =~= b.drop_last().push(b[lb]));
    }
}

/// The serialized form is a function of the content: two storage maps that
/// hold the same values under the same keys hold the same entries in the
/// same order, and serialize to the same bytes.
pub proof fn law_same_content_same_bytes(a: StorageMap, b: StorageMap)
    requires
        a.wf(),
        b.wf(),
        a@ == b@,
    ensures
        a.entries() == b.entries(),
        storage_encoding(a.entries()) == storage_encoding(b.entries()),
{
    lemma_entries_of_map(a.entries(), b.entries());
}

/// Reading inverts writing: what `encode` makes of a storage map, `decode`
/// reads back as that map, entry for entry.
pub proof fn law_round_trip(m: StorageMap)
    requires
        m.wf(),
    ensures
        decoding_of(storage_encoding(m.entries())) == Some(m.entries()),
        decoding_of(encoding_of(m@)) == Some(entries_of(m@)),
        map_of(decoding_of(encoding_of(m@))->0) == m@,
{
    lemma_round_trip(m.entries());
    lemma_entries_of_view(m);
}

/// The entries of a storage map are those of its content.
pub proof fn lemma_entries_of_view(m: StorageMap)
    requires
        m.wf(),
    ensures
        entries_of(m@) == m.entries(),
        encoding_of(m@) == storage_encoding(m.entries()),
{
    lemma_entries_of_map(entries_of(m@), m.entries());
}

} // verus!
