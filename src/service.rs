use vstd::prelude::*;
use vstd::utf8::encode_utf8;
use crate::aead::{
    derive_record_key, open_blob, opened_blob_of, record_key_for, record_key_of, seal_blob,
    sealed_blob_of, KEY_LEN, MAX_SEAL_LEN, MAX_SECRET_LEN, NONCE_LEN, TAG_LEN,
};
use crate::codec::{
    decompress_data, payload_of, restored_of, stored_form, stored_form_of, CompressionType,
    MAX_LZ4_INPUT,
};
use crate::digest::{content_hash, content_hash_of, data_file_name, data_file_name_of};
use crate::index::{
    has_key, index_valid, keys_unique, lemma_remove_key, metadata_valid, position_of, StorageIndex,
    StorageMetadata,
};

verus! {

/// Largest blob accepted by default: 100 MiB.
pub const DEFAULT_MAX_FILE_SIZE: u64 = 100 * 1024 * 1024;

/// Why a storage operation failed.
#[derive(Clone, Copy, Debug, PartialEq, Eq, Structural)]
pub enum StorageError {
    /// The key is empty.
    InvalidKey,
    /// A record already exists under the key; records are never overwritten.
    AlreadyExists,
    /// No record exists under the key.
    NotFound,
    /// The data is longer than the configured maximum.
    SizeLimitExceeded,
    /// No nonce could be drawn, or the payload could not be sealed.
    EncryptionFailed,
    /// The blob is malformed or its authentication tag does not verify.
    DecryptionFailed,
    /// The blob authenticated, but what it restores to does not match the
    /// recorded content hash.
    IntegrityViolation,
    /// Reading or writing a file failed.
    IOError,
    /// The index snapshot could not be used.
    CorruptIndex,
    /// An earlier failure left the index in doubt; every call now fails.
    InconsistentState,
}

/// A record produced by `store_data`: its metadata, the name of its data file,
/// and the sealed bytes to write there.
pub struct StoredRecord {
    pub metadata: StorageMetadata,
    pub file_name: String,
    pub blob: Vec<u8>,
}

/// The metadata that `store_data` creates for `data` under `key` at time `now`.
pub open spec fn fresh_metadata(
    m: StorageMetadata,
    key: Seq<char>,
    data: Seq<u8>,
    compress: bool,
    now: u64,
) -> bool {
    let (payload, tag) = stored_form_of(data, compress);
    &&& m.key@ == key
    &&& m.size == data.len()
    &&& m.compression == tag
    &&& m.compressed_size == (if tag is Some {
        Some(payload.len() as u64)
    } else {
        None::<u64>
    })
    &&& m.created_at == now
    &&& m.accessed_at == now
    &&& m.modified_at == now
    &&& m.encryption
    &&& m.hash@ == content_hash_of(data)
    &&& m.access_count == 0
}

/// `blob` and `m` together hold `data` for the caller secret `secret`: the
/// blob seals the payload that `m`'s compression tag names, under the record
/// key, and `m` carries the size and content hash of `data`. (An LZ4 payload
/// is of data whose length fits the block's size prefix.)
pub open spec fn holds_record(
    master: Seq<u8>,
    secret: Seq<char>,
    m: StorageMetadata,
    blob: Seq<u8>,
    data: Seq<u8>,
) -> bool {
    &&& encode_utf8(secret).len() <= MAX_SECRET_LEN
    &&& m.hash@ == content_hash_of(data)
    &&& m.size == data.len()
    &&& m.compression == Some(CompressionType::Lz4) ==> data.len() <= MAX_LZ4_INPUT
    &&& payload_of(data, m.compression).len() <= MAX_SEAL_LEN
    &&& blob.len() >= NONCE_LEN + TAG_LEN
    &&& exists|n: Seq<u8>|
        n.len() == NONCE_LEN && blob == #[trigger] sealed_blob_of(
            record_key_of(master, secret),
            n,
            payload_of(data, m.compression),
        )
}

/// The error `store_data` reports before any work, if any.
pub open spec fn store_error(
    entries: Seq<StorageMetadata>,
    key: Seq<char>,
    data_len: int,
    max_size: u64,
    inconsistent: bool,
) -> Option<StorageError> {
    if inconsistent {
        Some(StorageError::InconsistentState)
    } else if key.len() == 0 {
        Some(StorageError::InvalidKey)
    } else if data_len > max_size {
        Some(StorageError::SizeLimitExceeded)
    } else if has_key(entries, key) {
        Some(StorageError::AlreadyExists)
    } else {
        None
    }
}

/// The error a lookup of `key` reports, if any.
pub open spec fn lookup_error(entries: Seq<StorageMetadata>, key: Seq<char>, inconsistent: bool) -> Option<
    StorageError,
> {
    if inconsistent {
        Some(StorageError::InconsistentState)
    } else if key.len() == 0 {
        Some(StorageError::InvalidKey)
    } else if !has_key(entries, key) {
        Some(StorageError::NotFound)
    } else {
        None
    }
}

/// What `retrieve_data` returns for `key` and `blob` under the record key
/// derived from the caller's secret (`None` when none can be derived).
pub open spec fn retrieve_outcome(
    entries: Seq<StorageMetadata>,
    key: Seq<char>,
    blob: Seq<u8>,
    record_key: Option<Seq<u8>>,
    inconsistent: bool,
) -> Result<Seq<u8>, StorageError> {
    match lookup_error(entries, key, inconsistent) {
        Some(e) => Err(e),
        None => {
            let m = entries[position_of(entries, key)];
            match record_key {
                None => Err(StorageError::DecryptionFailed),
                Some(k) => match opened_blob_of(k, blob) {
                    None => Err(StorageError::DecryptionFailed),
                    Some(p) => match restored_of(p, m.compression) {
                        None => Err(StorageError::IntegrityViolation),
                        Some(d) => if d.len() == m.size && content_hash_of(d) == m.hash@ {
                            Ok(d)
                        } else {
                            Err(StorageError::IntegrityViolation)
                        },
                    },
                },
            }
        },
    }
}

/// The metadata after a successful read at time `now`.
pub open spec fn accessed(m: StorageMetadata, now: u64) -> StorageMetadata {
    StorageMetadata {
        accessed_at: now,
        access_count: if m.access_count < u64::MAX {
            (m.access_count + 1) as u64
        } else {
            m.access_count
        },
        ..m
    }
}

/// A byte result seen as a sequence.
pub open spec fn bytes_result(r: Result<Vec<u8>, StorageError>) -> Result<Seq<u8>, StorageError> {
    match r {
        Ok(v) => Ok(v@),
        Err(e) => Err(e),
    }
}

/// The storage engine's state: the index, the master key, the size limit and
/// the flag that an earlier failure left the index in doubt.
pub struct StorageService {
    index: StorageIndex,
    master_key: Vec<u8>,
    max_file_size: u64,
    inconsistent: bool,
}

impl StorageService {
    /// The index entries, in order of insertion.
    pub closed spec fn entries(&self) -> Seq<StorageMetadata> {
        self.index@
    }

    /// The master key that record keys are derived from.
    pub closed spec fn master(&self) -> Seq<u8> {
        self.master_key@
    }

    /// The largest plaintext accepted, in bytes.
    pub closed spec fn max_size(&self) -> u64 {
        self.max_file_size
    }

    /// Whether an earlier failure left the index in doubt.
    pub closed spec fn is_inconsistent(&self) -> bool {
        self.inconsistent
    }

    /// Keys are unique, entries valid, and the master key has its full
    /// length.
    pub open spec fn wf(&self) -> bool {
        index_valid(self.entries()) && self.master().len() == KEY_LEN
    }

    /// The settings stay as they were.
    pub open spec fn same_settings(&self, other: &StorageService) -> bool {
        &&& self.master() == other.master()
        &&& self.max_size() == other.max_size()
        &&& self.is_inconsistent() == other.is_inconsistent()
    }

    /// A service over `index` with the default size limit.
    pub fn new(master_key: Vec<u8>, index: StorageIndex) -> (r: StorageService)
        requires
            master_key@.len() == KEY_LEN,
            index.wf(),
        ensures
            r.wf(),
            r.entries() == index@,
            r.master() == master_key@,
            r.max_size() == DEFAULT_MAX_FILE_SIZE,
            !r.is_inconsistent(),
    {
        StorageService {
            index,
            master_key,
            max_file_size: DEFAULT_MAX_FILE_SIZE,
            inconsistent: false,
        }
    }

    /// The same service with another size limit.
    pub fn with_max_file_size(self, max_file_size: u64) -> (r: StorageService)
        requires
            self.wf(),
        ensures
            r.wf(),
            r.entries() == self.entries(),
            r.master() == self.master(),
            r.max_size() == max_file_size,
            r.is_inconsistent() == self.is_inconsistent(),
    {
        StorageService { max_file_size, ..self }
    }

    /// Records that an operation failed half-way; every later call fails
    /// with `InconsistentState`.
    pub fn mark_inconsistent(&mut self)
        requires
            old(self).wf(),
        ensures
            final(self).wf(),
            final(self).is_inconsistent(),
            final(self).entries() == old(self).entries(),
            final(self).master() == old(self).master(),
            final(self).max_size() == old(self).max_size(),
    {
        self.inconsistent = true;
    }

    /// Whether an earlier failure left the index in doubt.
    pub fn is_degraded(&self) -> (r: bool)
        ensures
            r == self.is_inconsistent(),
    {
        self.inconsistent
    }

    /// The entries of the index, in order of insertion.
    pub fn index_entries(&self) -> (r: &[StorageMetadata])
        ensures
            r@ == self.entries(),
    {
        self.index.entries()
    }

    /// Stores `data` under a new `key`, sealed for `secret`, LZ4-compressed
    /// when `compress` is set and that makes it strictly smaller. The record
    /// enters the index; the caller writes `blob` to `file_name`.
    pub fn store_data(&mut self, key: &str, data: &[u8], secret: &str, compress: bool, now: u64) -> (r:
        Result<StoredRecord, StorageError>)
        requires
            old(self).wf(),
        ensures
            final(self).wf(),
            final(self).same_settings(old(self)),
            match store_error(
                old(self).entries(),
                key@,
                data@.len() as int,
                old(self).max_size(),
                old(self).is_inconsistent(),
            ) {
                Some(e) => r == Err::<StoredRecord, StorageError>(e) && final(self).entries()
                    == old(self).entries(),
                None => match r {
                    Ok(rec) => {
                        &&& fresh_metadata(rec.metadata, key@, data@, compress, now)
                        &&& final(self).entries() == old(self).entries().push(rec.metadata)
                        &&& rec.file_name@ == data_file_name_of(key@)
                        &&& holds_record(old(self).master(), secret@, rec.metadata, rec.blob@, data@)
                        &&& rec.blob@.len() == stored_form_of(data@, compress).0.len() + NONCE_LEN
                            + TAG_LEN
                    },
                    Err(e) => e == StorageError::EncryptionFailed && final(self).entries()
                        == old(self).entries(),
                },
            },
    {
        if self.inconsistent {
            return Err(StorageError::InconsistentState);
        }
        if key.is_empty() {
            return Err(StorageError::InvalidKey);
        }
        if data.len() as u64 > self.max_file_size {
            return Err(StorageError::SizeLimitExceeded);
        }
        if self.index.find(key).is_some() {
            return Err(StorageError::AlreadyExists);
        }
        let (payload, compression) = stored_form(data, compress);
        let record_key = match derive_record_key(self.master_key.as_slice(), secret) {
            Some(k) => k,
            None => return Err(StorageError::EncryptionFailed),
        };
        let blob = match seal_blob(record_key.as_slice(), payload.as_slice()) {
            Some(b) => b,
            None => return Err(StorageError::EncryptionFailed),
        };
        let compressed_size = match compression {
            Some(_) => Some(payload.len() as u64),
            None => None,
        };
        let metadata = StorageMetadata {
            key: key.to_owned(),
            size: data.len() as u64,
            compressed_size,
            created_at: now,
            accessed_at: now,
            modified_at: now,
            compression,
            encryption: true,
            hash: content_hash(data),
            access_count: 0,
        };
        let file_name = data_file_name(key);
        self.index.insert(metadata.duplicate());
        assert(payload@ == payload_of(data@, compression));
        assert(holds_record(self.master_key@, secret@, metadata, blob@, data@));
        Ok(StoredRecord { metadata, file_name, blob })
    }

    /// Reads back the record under `key` from `blob`, the contents of its
    /// data file: opens it with the key derived from `secret`, restores the
    /// payload, and checks its length and content hash. On success the access time and
    /// count are updated.
    pub fn retrieve_data(&mut self, key: &str, blob: &[u8], secret: &str, now: u64) -> (r: Result<
        Vec<u8>,
        StorageError,
    >)
        requires
            old(self).wf(),
        ensures
            final(self).wf(),
            final(self).same_settings(old(self)),
            bytes_result(r) == retrieve_outcome(
                old(self).entries(),
                key@,
                blob@,
                record_key_for(old(self).master(), secret@),
                old(self).is_inconsistent(),
            ),
            r is Ok ==> final(self).entries() == old(self).entries().update(
                position_of(old(self).entries(), key@),
                accessed(old(self).entries()[position_of(old(self).entries(), key@)], now),
            ),
            r is Err ==> final(self).entries() == old(self).entries(),
            lookup_error(old(self).entries(), key@, old(self).is_inconsistent()) is None
                ==> forall|d: Seq<u8>|
                #[trigger] holds_record(
                    old(self).master(),
                    secret@,
                    old(self).entries()[position_of(old(self).entries(), key@)],
                    blob@,
                    d,
                ) ==> r is Ok && r.unwrap()@ == d,
    {
        if self.inconsistent {
            return Err(StorageError::InconsistentState);
        }
        if key.is_empty() {
            return Err(StorageError::InvalidKey);
        }
        let i = match self.index.find(key) {
            Some(i) => i,
            None => return Err(StorageError::NotFound),
        };
        let m = self.index.get(i);
        let record_key = match derive_record_key(self.master_key.as_slice(), secret) {
            Some(k) => k,
            None => return Err(StorageError::DecryptionFailed),
        };
        let payload = match open_blob(record_key.as_slice(), blob) {
            Some(p) => p,
            None => return Err(StorageError::DecryptionFailed),
        };
        let restored = match m.compression {
            Some(algorithm) => match decompress_data(payload.as_slice(), algorithm) {
                Some(d) => d,
                None => return Err(StorageError::IntegrityViolation),
            },
            None => payload,
        };
        if restored.len() as u64 != m.size {
            return Err(StorageError::IntegrityViolation);
        }
        let hash = content_hash(restored.as_slice());
        if hash != m.hash {
            return Err(StorageError::IntegrityViolation);
        }
        let mut updated = m.duplicate();
        updated.accessed_at = now;
        if updated.access_count < u64::MAX {
            updated.access_count = updated.access_count + 1;
        }
        assert(metadata_valid(self.index@[i as int]));
        self.index.replace_at(i, updated);
        Ok(restored)
    }

    /// Removes the record under `key` from the index and returns its
    /// metadata. The caller removes the data file first, and calls this only
    /// once that succeeded.
    pub fn delete_data(&mut self, key: &str) -> (r: Result<StorageMetadata, StorageError>)
        requires
            old(self).wf(),
        ensures
            final(self).wf(),
            final(self).same_settings(old(self)),
            match lookup_error(old(self).entries(), key@, old(self).is_inconsistent()) {
                Some(e) => r == Err::<StorageMetadata, StorageError>(e) && final(self).entries()
                    == old(self).entries(),
                None => r == Ok::<StorageMetadata, StorageError>(
                    old(self).entries()[position_of(old(self).entries(), key@)],
                ) && final(self).entries() == old(self).entries().remove(
                    position_of(old(self).entries(), key@),
                ),
            },
            r is Ok ==> !has_key(final(self).entries(), key@),
    {
        if self.inconsistent {
            return Err(StorageError::InconsistentState);
        }
        if key.is_empty() {
            return Err(StorageError::InvalidKey);
        }
        match self.index.find(key) {
            Some(i) => Ok(self.index.remove_at(i)),
            None => Err(StorageError::NotFound),
        }
    }

    /// A copy of the metadata recorded under `key`.
    pub fn get_metadata(&self, key: &str) -> (r: Result<StorageMetadata, StorageError>)
        requires
            self.wf(),
        ensures
            match lookup_error(self.entries(), key@, self.is_inconsistent()) {
                Some(e) => r == Err::<StorageMetadata, StorageError>(e),
                None => r == Ok::<StorageMetadata, StorageError>(
                    self.entries()[position_of(self.entries(), key@)],
                ),
            },
    {
        if self.inconsistent {
            return Err(StorageError::InconsistentState);
        }
        if key.is_empty() {
            return Err(StorageError::InvalidKey);
        }
        match self.index.find(key) {
            Some(i) => Ok(self.index.get(i).duplicate()),
            None => Err(StorageError::NotFound),
        }
    }

    /// The stored keys, in order of insertion.
    pub fn list_keys(&self) -> (r: Result<Vec<String>, StorageError>)
        requires
            self.wf(),
        ensures
            self.is_inconsistent() ==> r == Err::<Vec<String>, StorageError>(
                StorageError::InconsistentState,
            ),
            !self.is_inconsistent() ==> (r matches Ok(keys) && keys@.len() == self.entries().len()
                && forall|i: int| 0 <= i < keys@.len() ==> #[trigger] keys@[i]@ == self.entries()[i].key@),
    {
        if self.inconsistent {
            return Err(StorageError::InconsistentState);
        }
        Ok(self.index.keys())
    }
}

/// A second `store_data` under a key that the first one stored fails with
/// `AlreadyExists` (and `store_data` leaves the index as it was on any error).
pub proof fn lemma_no_overwrite(
    entries: Seq<StorageMetadata>,
    m: StorageMetadata,
    data_len: int,
    max_size: u64,
)
    requires
        m.key@.len() > 0,
        data_len <= max_size,
    ensures
        store_error(entries.push(m), m.key@, data_len, max_size, false) == Some(
            StorageError::AlreadyExists,
        ),
{
    let s = entries.push(m);
    assert(s[entries.len() as int].key@ == m.key@);
}

/// Data over the size limit is refused with `SizeLimitExceeded` before
/// anything else is looked at (and `store_data` then leaves the index as it was).
pub proof fn lemma_size_bound(
    entries: Seq<StorageMetadata>,
    key: Seq<char>,
    data_len: int,
    max_size: u64,
)
    requires
        key.len() > 0,
        data_len > max_size,
    ensures
        store_error(entries, key, data_len, max_size, false) == Some(
            StorageError::SizeLimitExceeded,
        ),
{
}

/// After `delete_data(key)` succeeds, reading `key` fails with `NotFound`,
/// whatever blob and secret are offered.
pub proof fn lemma_delete_finality(
    entries: Seq<StorageMetadata>,
    key: Seq<char>,
    blob: Seq<u8>,
    record_key: Option<Seq<u8>>,
)
    requires
        keys_unique(entries),
        lookup_error(entries, key, false) is None,
    ensures
        retrieve_outcome(
            entries.remove(position_of(entries, key)),
            key,
            blob,
            record_key,
            false,
        ) == Err::<Seq<u8>, StorageError>(StorageError::NotFound),
{
    let i = position_of(entries, key);
    lemma_remove_key(entries, i);
}

/// A blob that does not open under the record key derived from the offered
/// secret (a wrong secret, a flipped byte) is refused with
/// `DecryptionFailed`, and no bytes come back.
pub proof fn lemma_unopened_blob_refused(
    entries: Seq<StorageMetadata>,
    key: Seq<char>,
    blob: Seq<u8>,
    master: Seq<u8>,
    secret: Seq<char>,
)
    requires
        lookup_error(entries, key, false) is None,
        record_key_for(master, secret) matches Some(k) ==> opened_blob_of(k, blob) is None,
    ensures
        retrieve_outcome(entries, key, blob, record_key_for(master, secret), false) == Err::<
            Seq<u8>,
            StorageError,
        >(StorageError::DecryptionFailed),
{
}

} // verus!
