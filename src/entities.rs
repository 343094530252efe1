use vstd::prelude::*;
use vstd::string::StringSliceAdditionalSpecFns;

verus! {

/// The expansion of one named character reference.
pub struct Entity {
    pub codepoints: Vec<u32>,
    pub characters: String,
}

/// `key` is the first `key.len()` bytes of `s`.
pub open spec fn is_prefix(key: Seq<u8>, s: Seq<u8>) -> bool {
    key.len() <= s.len() && s.subrange(0, key.len() as int) == key
}

/// The length of the longest key that `s` starts with, or 0 if there is none.
pub open spec fn longest_key_len(keys: Seq<Seq<u8>>, s: Seq<u8>) -> nat
    decreases keys.len(),
{
    if keys.len() == 0 {
        0
    } else {
        let rest = longest_key_len(keys.drop_last(), s);
        let k = keys.last();
        if is_prefix(k, s) && k.len() > rest {
            k.len()
        } else {
            rest
        }
    }
}

/// The key with leading `&` bytes taken off.
pub open spec fn strip_ampersands(name: Seq<u8>) -> Seq<u8>
    decreases name.len(),
{
    if name.len() > 0 && name[0] == 0x26 {
        strip_ampersands(name.drop_first())
    } else {
        name
    }
}

/// Mapping from entity name (without the leading `&`, with the trailing `;`
/// where the name has one) to its expansion.
pub struct EntityTable {
    names: Vec<Vec<u8>>,
    entries: Vec<Entity>,
}

/// No two keys are equal and none is empty.
pub open spec fn keys_ok(keys: Seq<Seq<u8>>) -> bool {
    &&& forall|i: int| 0 <= i < keys.len() ==> #[trigger] keys[i].len() > 0
    &&& forall|i: int, j: int|
        0 <= i < keys.len() && 0 <= j < keys.len() && i != j ==> #[trigger] keys[i] != #[trigger] keys[j]
}

proof fn lemma_longest_at_least(keys: Seq<Seq<u8>>, s: Seq<u8>, i: int)
    requires
        0 <= i < keys.len(),
        is_prefix(keys[i], s),
    ensures
        longest_key_len(keys, s) >= keys[i].len(),
    decreases keys.len(),
{
    if i < keys.len() - 1 {
        lemma_longest_at_least(keys.drop_last(), s, i);
    }
}

proof fn lemma_longest_witness(keys: Seq<Seq<u8>>, s: Seq<u8>) -> (i: int)
    requires
        longest_key_len(keys, s) > 0,
    ensures
        0 <= i < keys.len(),
        is_prefix(keys[i], s),
        keys[i].len() == longest_key_len(keys, s),
    decreases keys.len(),
{
    let rest = longest_key_len(keys.drop_last(), s);
    let k = keys.last();
    if is_prefix(k, s) && k.len() > rest {
        keys.len() - 1
    } else {
        lemma_longest_witness(keys.drop_last(), s)
    }
}

/// Longest match is monotonic: when `s` matches a key of length `n`, any
/// input `t` that starts with the same `n` bytes (such as that key followed
/// by more name characters) matches a key at least as long.
pub proof fn lemma_longest_match_monotonic(keys: Seq<Seq<u8>>, s: Seq<u8>, t: Seq<u8>)
    requires
        longest_key_len(keys, s) > 0,
        is_prefix(s.subrange(0, longest_key_len(keys, s) as int), t),
    ensures
        longest_key_len(keys, t) >= longest_key_len(keys, s),
{
    let i = lemma_longest_witness(keys, s);
    let n = longest_key_len(keys, s) as int;
    assert(t.subrange(0, n) == keys[i]);
    lemma_longest_at_least(keys, t, i);
}

impl EntityTable {
    /// The keys, in insertion order.
    pub closed spec fn keys(&self) -> Seq<Seq<u8>> {
        self.names@.map_values(|v: Vec<u8>| v@)
    }

    /// The entities, index for index with the keys.
    pub closed spec fn values(&self) -> Seq<Entity> {
        self.entries@
    }

    pub closed spec fn wf(&self) -> bool {
        &&& self.names.len() == self.entries.len()
        &&& keys_ok(self.keys())
    }

    pub fn new() -> (t: Self)
        ensures
            t.wf(),
            t.keys().len() == 0,
    {
        let t = EntityTable { names: Vec::new(), entries: Vec::new() };
        assert(t.keys() =~= Seq::<Seq<u8>>::empty());
        t
    }

    pub fn len(&self) -> (n: usize)
        requires
            self.wf(),
        ensures
            n == self.keys().len(),
    {
        self.names.len()
    }

    /// Index of the entry whose key is exactly `name`.
    pub fn find(&self, name: &[u8]) -> (r: Option<usize>)
        requires
            self.wf(),
        ensures
            r matches Some(i) ==> i < self.keys().len() && self.keys()[i as int] == name@,
            r is None ==> forall|i: int| 0 <= i < self.keys().len() ==> self.keys()[i] != name@,
    {
        let mut i: usize = 0;
        while i < self.names.len()
            invariant
                self.wf(),
                i <= self.keys().len(),
                forall|j: int| 0 <= j < i ==> self.keys()[j] != name@,
            decreases self.keys().len() - i,
        {
            if bytes_equal(self.names[i].as_slice(), name) {
                return Some(i);
            }
            i = i + 1;
        }
        None
    }

    /// Adds an entity under `name` with its leading `&` characters taken off,
    /// replacing an entry with the same key. A name that is empty once
    /// stripped is not added, and false is returned.
    pub fn insert(&mut self, name: &str, codepoints: Vec<u32>, characters: String) -> (added: bool)
        requires
            old(self).wf(),
        ensures
            final(self).wf(),
            added == (strip_ampersands(name.spec_bytes()).len() > 0),
            !added ==> final(self).keys() == old(self).keys(),
            added && old(self).keys().contains(strip_ampersands(name.spec_bytes()))
                ==> final(self).keys() == old(self).keys(),
            added && !old(self).keys().contains(strip_ampersands(name.spec_bytes()))
                ==> final(self).keys() == old(self).keys().push(strip_ampersands(name.spec_bytes())),
            added ==> exists|i: int|
                0 <= i < final(self).keys().len() && final(self).keys()[i] == strip_ampersands(
                    name.spec_bytes(),
                ) && #[trigger] final(self).values()[i] == (Entity { codepoints, characters }),
            forall|i: int|
                0 <= i < old(self).keys().len() && old(self).keys()[i] != strip_ampersands(
                    name.spec_bytes(),
                ) ==> #[trigger] final(self).values()[i] == old(self).values()[i],
    {
        let bytes = name.as_bytes();
        let mut start: usize = 0;
        assert(bytes@.subrange(0, bytes@.len() as int) =~= bytes@);
        while start < bytes.len() && bytes[start] == 0x26
            invariant
                start <= bytes@.len(),
                strip_ampersands(bytes@.subrange(start as int, bytes@.len() as int))
                    == strip_ampersands(bytes@),
            decreases bytes@.len() - start,
        {
            assert(bytes@.subrange(start as int, bytes@.len() as int).drop_first() =~= bytes@.subrange(
                start + 1,
                bytes@.len() as int,
            ));
            start = start + 1;
        }
        let key_slice = &bytes[start..bytes.len()];
        assert(strip_ampersands(key_slice@) == key_slice@);
        if key_slice.len() == 0 {
            return false;
        }
        let mut key: Vec<u8> = Vec::new();
        let mut i: usize = 0;
        while i < key_slice.len()
            invariant
                i <= key_slice@.len(),
                key@ == key_slice@.subrange(0, i as int),
            decreases key_slice@.len() - i,
        {
            key.push(key_slice[i]);
            i = i + 1;
            assert(key@ =~= key_slice@.subrange(0, i as int));
        }
        assert(key@ =~= key_slice@);
        let entity = Entity { codepoints, characters };
        match self.find(key.as_slice()) {
            Some(idx) => {
                self.entries.set(idx, entity);
                assert(self.keys().contains(key@)) by {
                    assert(old(self).keys()[idx as int] == key@);
                }
                assert(self.values()[idx as int] == (Entity { codepoints, characters }));
            },
            None => {
                assert(!old(self).keys().contains(key@));
                let ghost n = self.names@.len();
                self.names.push(key);
                self.entries.push(entity);
                assert(self.keys() =~= old(self).keys().push(key_slice@));
                assert(self.values()[n as int] == (Entity { codepoints, characters }));
                assert(self.keys()[n as int] == key_slice@);
            },
        }
        true
    }

    /// Index of the entry with the longest key that `input` starts with.
    pub fn longest_match(&self, input: &[u8]) -> (r: Option<usize>)
        requires
            self.wf(),
        ensures
            r is None <==> longest_key_len(self.keys(), input@) == 0,
            r matches Some(i) ==> i < self.keys().len() && is_prefix(self.keys()[i as int], input@)
                && self.keys()[i as int].len() == longest_key_len(self.keys(), input@),
    {
        let mut best: Option<usize> = None;
        let mut best_len: usize = 0;
        let mut i: usize = 0;
        while i < self.names.len()
            invariant
                self.wf(),
                i <= self.keys().len(),
                best_len == longest_key_len(self.keys().subrange(0, i as int), input@),
                best is None <==> best_len == 0,
                best matches Some(b) ==> b < i && is_prefix(self.keys()[b as int], input@)
                    && self.keys()[b as int].len() == best_len,
            decreases self.keys().len() - i,
        {
            let key = self.names[i].as_slice();
            assert(key@ == self.keys()[i as int]);
            assert(self.keys().subrange(0, i + 1).drop_last() =~= self.keys().subrange(0, i as int));
            if key.len() > best_len && key.len() <= input.len() && bytes_equal(key, &input[0..key.len()]) {
                best = Some(i);
                best_len = key.len();
            }
            i = i + 1;
        }
        assert(self.keys().subrange(0, i as int) =~= self.keys());
        best
    }

    /// The key of entry `i`.
    pub fn key(&self, i: usize) -> (k: &[u8])
        requires
            self.wf(),
            i < self.keys().len(),
        ensures
            k@ == self.keys()[i as int],
    {
        self.names[i].as_slice()
    }

    /// The entity of entry `i`.
    pub fn entity(&self, i: usize) -> (e: &Entity)
        requires
            self.wf(),
            i < self.keys().len(),
        ensures
            *e == self.values()[i as int],
    {
        &self.entries[i]
    }
}

/// Byte-for-byte equality of two slices.
pub fn bytes_equal(a: &[u8], b: &[u8]) -> (r: bool)
    ensures
        r == (a@ == b@),
{
    if a.len() != b.len() {
        return false;
    }
    let mut i: usize = 0;
    while i < a.len()
        invariant
            a@.len() == b@.len(),
            i <= a@.len(),
            forall|j: int| 0 <= j < i ==> a@[j] == b@[j],
        decreases a@.len() - i,
    {
        if a[i] != b[i] {
            return false;
        }
        i = i + 1;
    }
    assert(a@ =~= b@);
    true
}

} // verus!
