use vstd::prelude::*;
use crate::codec::CompressionType;

verus! {

/// What the index records about one stored key.
#[derive(Clone, Debug)]
pub struct StorageMetadata {
    pub key: String,
    /// Length of the plaintext as stored by the caller.
    pub size: u64,
    /// Length of the kept payload, present only when compression was applied.
    pub compressed_size: Option<u64>,
    pub created_at: u64,
    pub accessed_at: u64,
    pub modified_at: u64,
    pub compression: Option<CompressionType>,
    pub encryption: bool,
    /// Lowercase hex SHA-256 of the plaintext, before compression.
    pub hash: String,
    pub access_count: u64,
}

impl StorageMetadata {
    /// A field-by-field copy.
    pub fn duplicate(&self) -> (r: StorageMetadata)
        ensures
            r == *self,
    {
        StorageMetadata {
            key: self.key.clone(),
            size: self.size,
            compressed_size: self.compressed_size,
            created_at: self.created_at,
            accessed_at: self.accessed_at,
            modified_at: self.modified_at,
            compression: self.compression,
            encryption: self.encryption,
            hash: self.hash.clone(),
            access_count: self.access_count,
        }
    }
}

/// No two entries share a key.
pub open spec fn keys_unique(s: Seq<StorageMetadata>) -> bool {
    forall|i: int, j: int| 0 <= i < j < s.len() ==> s[i].key@ != s[j].key@
}

/// A compressed size, where there is one, is below the plaintext size: a
/// compressed form is kept only when it saves space.
pub open spec fn metadata_valid(m: StorageMetadata) -> bool {
    m.compressed_size matches Some(c) ==> c < m.size
}

/// Keys are unique and every entry is valid.
pub open spec fn index_valid(s: Seq<StorageMetadata>) -> bool {
    &&& keys_unique(s)
    &&& forall|i: int| 0 <= i < s.len() ==> #[trigger] metadata_valid(s[i])
}

/// Some entry has key `k`.
pub open spec fn has_key(s: Seq<StorageMetadata>, k: Seq<char>) -> bool {
    exists|i: int| 0 <= i < s.len() && #[trigger] s[i].key@ == k
}

/// The position of the entry with key `k`.
pub open spec fn position_of(s: Seq<StorageMetadata>, k: Seq<char>) -> int
    recommends
        has_key(s, k),
{
    choose|i: int| 0 <= i < s.len() && #[trigger] s[i].key@ == k
}

/// With unique keys, the entry with key `k` sits at exactly one position.
pub proof fn lemma_position_of(s: Seq<StorageMetadata>, k: Seq<char>, i: int)
    requires
        keys_unique(s),
        0 <= i < s.len(),
        s[i].key@ == k,
    ensures
        has_key(s, k),
        position_of(s, k) == i,
{
    assert(s[i].key@ == k);
    let p = position_of(s, k);
    if p != i {
        if p < i {
            assert(s[p].key@ != s[i].key@);
        } else {
            assert(s[i].key@ != s[p].key@);
        }
    }
}

/// Removing the entry with key `k` leaves no entry with that key, and keeps
/// keys unique.
pub proof fn lemma_remove_key(s: Seq<StorageMetadata>, i: int)
    requires
        keys_unique(s),
        0 <= i < s.len(),
    ensures
        !has_key(s.remove(i), s[i].key@),
        keys_unique(s.remove(i)),
        forall|j: int| 0 <= j < s.remove(i).len() ==> #[trigger] s.remove(i)[j] == (if j < i {
            s[j]
        } else {
            s[j + 1]
        }),
{
    let r = s.remove(i);
    if has_key(r, s[i].key@) {
        let j = choose|j: int| 0 <= j < r.len() && #[trigger] r[j].key@ == s[i].key@;
        if j < i {
            assert(r[j] == s[j]);
        } else {
            assert(r[j] == s[j + 1]);
        }
    }
    assert forall|a: int, b: int| 0 <= a < b < r.len() implies r[a].key@ != r[b].key@ by {
        let a0 = if a < i { a } else { a + 1 };
        let b0 = if b < i { b } else { b + 1 };
        assert(r[a] == s[a0]);
        assert(r[b] == s[b0]);
    }
}

/// The catalogue of stored keys, in order of insertion.
pub struct StorageIndex {
    entries: Vec<StorageMetadata>,
}

impl View for StorageIndex {
    type V = Seq<StorageMetadata>;

    closed spec fn view(&self) -> Seq<StorageMetadata> {
        self.entries@
    }
}

impl StorageIndex {
    /// The index is well formed when its keys are unique and its entries
    /// valid.
    pub open spec fn wf(&self) -> bool {
        index_valid(self@)
    }

    /// An empty index.
    pub fn new() -> (r: StorageIndex)
        ensures
            r@ == Seq::<StorageMetadata>::empty(),
            r.wf(),
    {
        StorageIndex { entries: Vec::new() }
    }

    /// Builds an index from loaded entries; `None` when two share a key or
    /// one records a compressed size that is not below its size.
    pub fn from_entries(entries: Vec<StorageMetadata>) -> (r: Option<StorageIndex>)
        ensures
            r matches Some(ix) ==> ix@ == entries@ && ix.wf(),
            r is None ==> !index_valid(entries@),
    {
        let n = entries.len();
        let mut v: usize = 0;
        while v < n
            invariant
                n == entries@.len(),
                v <= n,
                forall|a: int| 0 <= a < v ==> #[trigger] metadata_valid(entries@[a]),
            decreases n - v,
        {
            if let Some(c) = entries[v].compressed_size {
                if c >= entries[v].size {
                    assert(!metadata_valid(entries@[v as int]));
                    return None;
                }
            }
            v = v + 1;
        }
        let mut i: usize = 0;
        while i < n
            invariant
                n == entries@.len(),
                i <= n,
                forall|a: int| 0 <= a < n ==> #[trigger] metadata_valid(entries@[a]),
                forall|a: int, b: int| 0 <= a < b < n && a < i ==> entries@[a].key@ != entries@[b].key@,
            decreases n - i,
        {
            let mut j: usize = i + 1;
            while j < n
                invariant
                    n == entries@.len(),
                    forall|a: int| 0 <= a < n ==> #[trigger] metadata_valid(entries@[a]),
                    i < n,
                    i + 1 <= j <= n,
                    forall|a: int, b: int| 0 <= a < b < n && a < i ==> entries@[a].key@ != entries@[b].key@,
                    forall|b: int| i < b < j ==> entries@[i as int].key@ != entries@[b].key@,
                decreases n - j,
            {
                if entries[i].key == entries[j].key {
                    return None;
                }
                j = j + 1;
            }
            i = i + 1;
        }
        Some(StorageIndex { entries })
    }

    /// Builds an index from a snapshot that files each entry under a name;
    /// `None` when an entry sits under a name other than its own key, or when
    /// `from_entries` refuses the entries.
    pub fn from_snapshot(named: Vec<(String, StorageMetadata)>) -> (r: Option<StorageIndex>)
        ensures
            r matches Some(ix) ==> ix.wf() && ix@.len() == named@.len() && forall|i: int|
                0 <= i < named@.len() ==> #[trigger] ix@[i] == named@[i].1 && named@[i].0@
                    == named@[i].1.key@,
            r is None ==> !index_valid(named@.map_values(|p: (String, StorageMetadata)| p.1))
                || exists|i: int|
                0 <= i < named@.len() && #[trigger] named@[i].0@ != named@[i].1.key@,
    {
        let mut entries: Vec<StorageMetadata> = Vec::new();
        let mut rest = named;
        let ghost all = rest@;
        let mut i: usize = 0;
        let n = rest.len();
        while i < n
            invariant
                n == all.len(),
                all == named@,
                i <= n,
                rest@ == all.subrange(i as int, n as int),
                entries@.len() == i,
                forall|j: int| 0 <= j < i ==> #[trigger] entries@[j] == all[j].1 && all[j].0@ == all[j].1.key@,
            decreases n - i,
        {
            proof {
                assert(rest@[0] == all[i as int]);
            }
            let (name, m) = rest.remove(0);
            if name != m.key {
                assert(all[i as int].0@ != all[i as int].1.key@);
                return None;
            }
            entries.push(m);
            i = i + 1;
            proof {
                assert(rest@ =~= all.subrange(i as int, n as int));
            }
        }
        proof {
            assert(entries@ =~= all.map_values(|p: (String, StorageMetadata)| p.1));
        }
        StorageIndex::from_entries(entries)
    }

    pub fn len(&self) -> (r: usize)
        ensures
            r == self@.len(),
    {
        self.entries.len()
    }

    /// The entries, in order of insertion.
    pub fn entries(&self) -> (r: &[StorageMetadata])
        ensures
            r@ == self@,
    {
        self.entries.as_slice()
    }

    /// The position of the entry for `key`, if there is one.
    pub fn find(&self, key: &str) -> (r: Option<usize>)
        requires
            self.wf(),
        ensures
            r matches Some(i) ==> i < self@.len() && self@[i as int].key@ == key@ && position_of(
                self@,
                key@,
            ) == i,
            r is None ==> !has_key(self@, key@),
    {
        let k = key.to_owned();
        let mut i: usize = 0;
        while i < self.entries.len()
            invariant
                i <= self@.len(),
                k@ == key@,
                self.wf(),
                self@ == self.entries@,
                forall|j: int| 0 <= j < i ==> self@[j].key@ != key@,
            decreases self@.len() - i,
        {
            if self.entries[i].key == k {
                proof {
                    lemma_position_of(self@, key@, i as int);
                }
                return Some(i);
            }
            i = i + 1;
        }
        None
    }

    /// The entry at position `i`.
    pub fn get(&self, i: usize) -> (r: &StorageMetadata)
        requires
            i < self@.len(),
        ensures
            *r == self@[i as int],
    {
        &self.entries[i]
    }

    /// Appends a valid entry for a key that is not yet present.
    pub fn insert(&mut self, m: StorageMetadata)
        requires
            old(self).wf(),
            metadata_valid(m),
            !has_key(old(self)@, m.key@),
        ensures
            final(self)@ == old(self)@.push(m),
            final(self).wf(),
    {
        self.entries.push(m);
        assert forall|a: int, b: int| 0 <= a < b < self@.len() implies self@[a].key@
            != self@[b].key@ by {
            if b == self@.len() - 1 {
                assert(self@[a] == old(self)@[a]);
            }
        }
    }

    /// Removes and returns the entry at position `i`.
    pub fn remove_at(&mut self, i: usize) -> (r: StorageMetadata)
        requires
            old(self).wf(),
            i < old(self)@.len(),
        ensures
            r == old(self)@[i as int],
            final(self)@ == old(self)@.remove(i as int),
            final(self).wf(),
            !has_key(final(self)@, r.key@),
    {
        proof {
            lemma_remove_key(self@, i as int);
        }
        self.entries.remove(i)
    }

    /// Replaces the entry at position `i` by one with the same key.
    pub fn replace_at(&mut self, i: usize, m: StorageMetadata)
        requires
            old(self).wf(),
            i < old(self)@.len(),
            m.key@ == old(self)@[i as int].key@,
            metadata_valid(m),
        ensures
            final(self)@ == old(self)@.update(i as int, m),
            final(self).wf(),
    {
        self.entries.set(i, m);
        assert forall|a: int, b: int| 0 <= a < b < self@.len() implies self@[a].key@
            != self@[b].key@ by {
            assert(self@[a].key@ == old(self)@[a].key@);
            assert(self@[b].key@ == old(self)@[b].key@);
        }
    }

    /// The keys, in order of insertion.
    pub fn keys(&self) -> (r: Vec<String>)
        ensures
            r@.len() == self@.len(),
            forall|i: int| 0 <= i < r@.len() ==> #[trigger] r@[i]@ == self@[i].key@,
    {
        let mut out: Vec<String> = Vec::new();
        let mut i: usize = 0;
        while i < self.entries.len()
            invariant
                i <= self@.len(),
                self@ == self.entries@,
                out@.len() == i,
                forall|j: int| 0 <= j < i ==> #[trigger] out@[j]@ == self@[j].key@,
            decreases self@.len() - i,
        {
            out.push(self.entries[i].key.clone());
            i = i + 1;
        }
        out
    }
}

} // verus!
