use vstd::prelude::*;
use crate::digest::{data_file_name, data_file_name_of, is_data_file_name, is_data_file_name_of};
use crate::index::{metadata_valid, StorageMetadata};
use crate::service::{StorageError, StorageService};

verus! {

/// Records read fewer times than this, and smaller than
/// `CONSOLIDATION_MAX_SIZE`, are candidates for consolidation.
pub const CONSOLIDATION_MAX_ACCESSES: u64 = 5;

/// Size below which a rarely read record is a consolidation candidate.
pub const CONSOLIDATION_MAX_SIZE: u64 = 1024;

/// Records read more often than this and kept uncompressed are candidates
/// for recompression.
pub const RECOMPRESSION_MIN_ACCESSES: u64 = 10;

/// Records not read for longer than this, in seconds, and read fewer than
/// `ARCHIVAL_MAX_ACCESSES` times, are candidates for archival.
pub const ARCHIVAL_IDLE_SECS: u64 = 90 * 24 * 3600;

pub const ARCHIVAL_MAX_ACCESSES: u64 = 2;

/// Aggregate usage of the store.
pub struct StorageStats {
    pub total_files: usize,
    /// Sum of the plaintext sizes (saturating).
    pub total_size: u64,
    /// Sum of the kept sizes: the compressed size where there is one, else
    /// the plaintext size (saturating).
    pub total_compressed_size: u64,
    pub available_space: u64,
    pub used_space: u64,
    /// Bytes that compression saved: the plaintext sizes less the compressed
    /// sizes, over the compressed records (saturating).
    pub compression_savings: u64,
}

impl StorageStats {
    /// The compression ratio `total_compressed_size / total_size` as a
    /// numerator and denominator; 1/1 for an empty store.
    pub fn compression_ratio(&self) -> (r: (u64, u64))
        ensures
            self.total_size == 0 ==> r == (1u64, 1u64),
            self.total_size != 0 ==> r == (self.total_compressed_size, self.total_size),
    {
        if self.total_size == 0 {
            (1, 1)
        } else {
            (self.total_compressed_size, self.total_size)
        }
    }
}

/// A file found in the storage directory.
pub struct DiskFile {
    pub name: String,
    pub size: u64,
}

/// What a maintenance pass found. Only the orphaned files are acted upon (the
/// caller deletes them); the candidate counts are advice.
pub struct OptimizationReport {
    /// Data files that no index entry points to.
    pub orphaned_files: Vec<String>,
    /// Total size of the orphaned files (saturating).
    pub bytes_reclaimed: u64,
    /// Uncompressed records read often enough to be worth compressing.
    pub compression_candidates: u64,
    /// Small, rarely read records that could be consolidated.
    pub consolidation_candidates: u64,
    /// Records idle long enough, and rarely read, to be archived.
    pub archival_candidates: u64,
}

/// `x`, or the largest `u64` if it does not fit.
pub open spec fn capped(x: int) -> u64 {
    if x > u64::MAX {
        u64::MAX
    } else if x < 0 {
        0
    } else {
        x as u64
    }
}

/// The size a record takes once kept: compressed where it was compressed.
pub open spec fn kept_size(m: StorageMetadata) -> u64 {
    match m.compressed_size {
        Some(c) => c,
        None => m.size,
    }
}

/// Bytes that compression saved on one record.
pub open spec fn saved_size(m: StorageMetadata) -> u64 {
    match m.compressed_size {
        Some(c) => if c < m.size {
            (m.size - c) as u64
        } else {
            0
        },
        None => 0,
    }
}

/// The sum of `f` over the entries.
pub open spec fn sum_of(s: Seq<StorageMetadata>, f: spec_fn(StorageMetadata) -> u64) -> int
    decreases s.len(),
{
    if s.len() == 0 {
        0
    } else {
        sum_of(s.drop_last(), f) + f(s.last())
    }
}

/// How many entries satisfy `p`.
pub open spec fn count_where(s: Seq<StorageMetadata>, p: spec_fn(StorageMetadata) -> bool) -> int
    decreases s.len(),
{
    if s.len() == 0 {
        0
    } else {
        count_where(s.drop_last(), p) + if p(s.last()) {
            1int
        } else {
            0
        }
    }
}

pub proof fn lemma_sum_nonneg(s: Seq<StorageMetadata>, f: spec_fn(StorageMetadata) -> u64)
    ensures
        0 <= sum_of(s, f),
    decreases s.len(),
{
    if s.len() > 0 {
        lemma_sum_nonneg(s.drop_last(), f);
    }
}

pub open spec fn is_compression_candidate(m: StorageMetadata) -> bool {
    m.access_count > RECOMPRESSION_MIN_ACCESSES && m.compression is None
}

pub open spec fn is_consolidation_candidate(m: StorageMetadata) -> bool {
    m.size < CONSOLIDATION_MAX_SIZE && m.access_count < CONSOLIDATION_MAX_ACCESSES
}

pub open spec fn is_archival_candidate(m: StorageMetadata, now: u64) -> bool {
    now - m.accessed_at > ARCHIVAL_IDLE_SECS && m.access_count < ARCHIVAL_MAX_ACCESSES
}

/// A data file name (`data_*.dat`) that no index entry's data file has.
pub open spec fn is_orphan(entries: Seq<StorageMetadata>, name: Seq<char>) -> bool {
    &&& is_data_file_name_of(name)
    &&& !exists|i: int| 0 <= i < entries.len() && #[trigger] data_file_name_of(entries[i].key@) == name
}

/// With every compressed size below its size, the kept sizes add up to no
/// more than the plaintext sizes.
pub proof fn lemma_kept_at_most_size(s: Seq<StorageMetadata>)
    requires
        forall|i: int| 0 <= i < s.len() ==> #[trigger] metadata_valid(s[i]),
    ensures
        sum_of(s, |m: StorageMetadata| kept_size(m)) <= sum_of(s, |m: StorageMetadata| m.size),
    decreases s.len(),
{
    if s.len() > 0 {
        assert(metadata_valid(s[s.len() - 1]));
        lemma_kept_at_most_size(s.drop_last());
    }
}

/// The names of the orphaned files, in listing order.
pub open spec fn orphan_names(files: Seq<DiskFile>, entries: Seq<StorageMetadata>) -> Seq<Seq<char>>
    decreases files.len(),
{
    if files.len() == 0 {
        Seq::empty()
    } else if is_orphan(entries, files.last().name@) {
        orphan_names(files.drop_last(), entries).push(files.last().name@)
    } else {
        orphan_names(files.drop_last(), entries)
    }
}

/// The total size of the orphaned files.
pub open spec fn orphan_bytes(files: Seq<DiskFile>, entries: Seq<StorageMetadata>) -> int
    decreases files.len(),
{
    if files.len() == 0 {
        0
    } else {
        orphan_bytes(files.drop_last(), entries) + if is_orphan(entries, files.last().name@) {
            files.last().size as int
        } else {
            0
        }
    }
}

pub proof fn lemma_orphan_bytes_nonneg(files: Seq<DiskFile>, entries: Seq<StorageMetadata>)
    ensures
        0 <= orphan_bytes(files, entries),
    decreases files.len(),
{
    if files.len() > 0 {
        lemma_orphan_bytes_nonneg(files.drop_last(), entries);
    }
}

/// Saturating sum of `f` over the entries.
fn total_of(entries: &[StorageMetadata], kept: bool) -> (r: u64)
    ensures
        r == capped(
            sum_of(
                entries@,
                if kept {
                    |m: StorageMetadata| kept_size(m)
                } else {
                    |m: StorageMetadata| m.size
                },
            ),
        ),
{
    let ghost f: spec_fn(StorageMetadata) -> u64 = if kept {
        |m: StorageMetadata| kept_size(m)
    } else {
        |m: StorageMetadata| m.size
    };
    let mut acc: u64 = 0;
    let mut i: usize = 0;
    while i < entries.len()
        invariant
            i <= entries@.len(),
            acc == capped(sum_of(entries@.subrange(0, i as int), f)),
            f == (if kept {
                |m: StorageMetadata| kept_size(m)
            } else {
                |m: StorageMetadata| m.size
            }),
        decreases entries@.len() - i,
    {
        let m = &entries[i];
        let x = if kept {
            match m.compressed_size {
                Some(c) => c,
                None => m.size,
            }
        } else {
            m.size
        };
        proof {
            let s = entries@.subrange(0, i + 1);
            assert(s.drop_last() =~= entries@.subrange(0, i as int));
            assert(s.last() == entries@[i as int]);
            if kept {
                assert(f(entries@[i as int]) == kept_size(entries@[i as int]));
            } else {
                assert(f(entries@[i as int]) == entries@[i as int].size);
            }
            lemma_sum_nonneg(entries@.subrange(0, i as int), f);
        }
        acc = if acc > u64::MAX - x {
            u64::MAX
        } else {
            acc + x
        };
        i = i + 1;
    }
    assert(entries@.subrange(0, entries@.len() as int) =~= entries@);
    acc
}

/// How many entries satisfy one of the three advisory tests.
fn count_candidates(entries: &[StorageMetadata], kind: u8, now: u64) -> (r: u64)
    requires
        kind < 3,
    ensures
        r == count_where(
            entries@,
            if kind == 0 {
                |m: StorageMetadata| is_compression_candidate(m)
            } else if kind == 1 {
                |m: StorageMetadata| is_consolidation_candidate(m)
            } else {
                |m: StorageMetadata| is_archival_candidate(m, now)
            },
        ),
{
    let ghost p: spec_fn(StorageMetadata) -> bool = if kind == 0 {
        |m: StorageMetadata| is_compression_candidate(m)
    } else if kind == 1 {
        |m: StorageMetadata| is_consolidation_candidate(m)
    } else {
        |m: StorageMetadata| is_archival_candidate(m, now)
    };
    let mut n: u64 = 0;
    let mut i: usize = 0;
    while i < entries.len()
        invariant
            i <= entries@.len(),
            n == count_where(entries@.subrange(0, i as int), p),
            n <= i,
            p == (if kind == 0 {
                |m: StorageMetadata| is_compression_candidate(m)
            } else if kind == 1 {
                |m: StorageMetadata| is_consolidation_candidate(m)
            } else {
                |m: StorageMetadata| is_archival_candidate(m, now)
            }),
        decreases entries@.len() - i,
    {
        let m = &entries[i];
        let hit = if kind == 0 {
            m.access_count > RECOMPRESSION_MIN_ACCESSES && m.compression.is_none()
        } else if kind == 1 {
            m.size < CONSOLIDATION_MAX_SIZE && m.access_count < CONSOLIDATION_MAX_ACCESSES
        } else {
            now.saturating_sub(m.accessed_at) > ARCHIVAL_IDLE_SECS && m.access_count
                < ARCHIVAL_MAX_ACCESSES
        };
        proof {
            let s = entries@.subrange(0, i + 1);
            assert(s.drop_last() =~= entries@.subrange(0, i as int));
            assert(s.last() == entries@[i as int]);
            if kind == 0 {
                assert(p(entries@[i as int]) == is_compression_candidate(entries@[i as int]));
            } else if kind == 1 {
                assert(p(entries@[i as int]) == is_consolidation_candidate(entries@[i as int]));
            } else {
                assert(p(entries@[i as int]) == is_archival_candidate(entries@[i as int], now));
            }
        }
        if hit {
            n = n + 1;
        }
        i = i + 1;
    }
    assert(entries@.subrange(0, entries@.len() as int) =~= entries@);
    n
}

/// Saturating sum of the bytes that compression saved.
fn savings_of(entries: &[StorageMetadata]) -> (r: u64)
    ensures
        r == capped(sum_of(entries@, |m: StorageMetadata| saved_size(m))),
{
    let mut acc: u64 = 0;
    let mut i: usize = 0;
    while i < entries.len()
        invariant
            i <= entries@.len(),
            acc == capped(sum_of(entries@.subrange(0, i as int), |m: StorageMetadata| saved_size(m))),
        decreases entries@.len() - i,
    {
        let m = &entries[i];
        let x: u64 = match m.compressed_size {
            Some(c) => m.size.saturating_sub(c),
            None => 0,
        };
        proof {
            let s = entries@.subrange(0, i + 1);
            assert(s.drop_last() =~= entries@.subrange(0, i as int));
            assert(s.last() == entries@[i as int]);
            lemma_sum_nonneg(entries@.subrange(0, i as int), |m: StorageMetadata| saved_size(m));
        }
        acc = if acc > u64::MAX - x {
            u64::MAX
        } else {
            acc + x
        };
        i = i + 1;
    }
    assert(entries@.subrange(0, entries@.len() as int) =~= entries@);
    acc
}

impl StorageService {
    /// Aggregates the index, next to the volume's used and available bytes
    /// that the caller measured.
    pub fn get_usage_stats(&self, used_space: u64, available_space: u64) -> (r: Result<
        StorageStats,
        StorageError,
    >)
        requires
            self.wf(),
        ensures
            self.is_inconsistent() ==> r is Err && r->Err_0 == StorageError::InconsistentState,
            !self.is_inconsistent() ==> (r matches Ok(st) && {
                &&& st.total_files == self.entries().len()
                &&& st.total_size == capped(sum_of(self.entries(), |m: StorageMetadata| m.size))
                &&& st.total_compressed_size == capped(
                    sum_of(self.entries(), |m: StorageMetadata| kept_size(m)),
                )
                &&& st.total_compressed_size <= st.total_size
                &&& st.used_space == used_space
                &&& st.available_space == available_space
                &&& st.compression_savings == capped(
                    sum_of(self.entries(), |m: StorageMetadata| saved_size(m)),
                )
            }),
    {
        if self.is_degraded() {
            return Err(StorageError::InconsistentState);
        }
        let entries = self.index_entries();
        proof {
            lemma_kept_at_most_size(entries@);
        }
        Ok(StorageStats {
            total_files: entries.len(),
            total_size: total_of(entries, false),
            total_compressed_size: total_of(entries, true),
            available_space,
            used_space,
            compression_savings: savings_of(entries),
        })
    }

    /// The maintenance pass: finds the data files among `files` (the storage
    /// directory's files) that no index entry points to, and counts the
    /// advisory candidates at time `now`.
    pub fn optimize_storage(&self, files: &[DiskFile], now: u64) -> (r: Result<
        OptimizationReport,
        StorageError,
    >)
        requires
            self.wf(),
        ensures
            self.is_inconsistent() ==> r is Err && r->Err_0 == StorageError::InconsistentState,
            !self.is_inconsistent() ==> (r matches Ok(rep) && {
                &&& rep.orphaned_files@.map_values(|s: String| s@) == orphan_names(
                    files@,
                    self.entries(),
                )
                &&& rep.bytes_reclaimed == capped(orphan_bytes(files@, self.entries()))
                &&& rep.compression_candidates == count_where(
                    self.entries(),
                    |m: StorageMetadata| is_compression_candidate(m),
                )
                &&& rep.consolidation_candidates == count_where(
                    self.entries(),
                    |m: StorageMetadata| is_consolidation_candidate(m),
                )
                &&& rep.archival_candidates == count_where(
                    self.entries(),
                    |m: StorageMetadata| is_archival_candidate(m, now),
                )
            }),
    {
        if self.is_degraded() {
            return Err(StorageError::InconsistentState);
        }
        let entries = self.index_entries();
        let mut known: Vec<String> = Vec::new();
        let mut i: usize = 0;
        while i < entries.len()
            invariant
                i <= entries@.len(),
                known@.len() == i,
                forall|j: int| 0 <= j < i ==> #[trigger] known@[j]@ == data_file_name_of(entries@[j].key@),
            decreases entries@.len() - i,
        {
            known.push(data_file_name(entries[i].key.as_str()));
            i = i + 1;
        }
        let mut orphaned: Vec<String> = Vec::new();
        let mut bytes: u64 = 0;
        let mut k: usize = 0;
        while k < files.len()
            invariant
                k <= files@.len(),
                known@.len() == entries@.len(),
                forall|j: int| 0 <= j < known@.len() ==> #[trigger] known@[j]@ == data_file_name_of(entries@[j].key@),
                orphaned@.map_values(|s: String| s@) == orphan_names(files@.subrange(0, k as int), entries@),
                bytes == capped(orphan_bytes(files@.subrange(0, k as int), entries@)),
            decreases files@.len() - k,
        {
            let f = &files[k];
            let mut found = false;
            let mut j: usize = 0;
            while j < known.len()
                invariant
                    j <= known@.len(),
                    known@.len() == entries@.len(),
                    forall|a: int| 0 <= a < known@.len() ==> #[trigger] known@[a]@ == data_file_name_of(entries@[a].key@),
                    found == exists|a: int| 0 <= a < j && #[trigger] data_file_name_of(entries@[a].key@) == f.name@,
                decreases known@.len() - j,
            {
                if known[j] == f.name {
                    found = true;
                }
                proof {
                    assert(known@[j as int]@ == data_file_name_of(entries@[j as int].key@));
                }
                j = j + 1;
            }
            proof {
                let s = files@.subrange(0, k + 1);
                assert(s.drop_last() =~= files@.subrange(0, k as int));
                assert(s.last() == files@[k as int]);
                lemma_orphan_bytes_nonneg(files@.subrange(0, k as int), entries@);
            }
            let data_file = is_data_file_name(f.name.as_str());
            proof {
                assert((data_file && !found) == is_orphan(entries@, f.name@));
            }
            if data_file && !found {
                orphaned.push(f.name.clone());
                bytes = if bytes > u64::MAX - f.size {
                    u64::MAX
                } else {
                    bytes + f.size
                };
                proof {
                    assert(orphaned@.map_values(|s: String| s@) =~= orphan_names(files@.subrange(0, k + 1), entries@));
                }
            }
            k = k + 1;
        }
        assert(files@.subrange(0, files@.len() as int) =~= files@);
        Ok(OptimizationReport {
            orphaned_files: orphaned,
            bytes_reclaimed: bytes,
            compression_candidates: count_candidates(entries, 0, now),
            consolidation_candidates: count_candidates(entries, 1, now),
            archival_candidates: count_candidates(entries, 2, now),
        })
    }
}

} // verus!
