use vstd::prelude::*;
use crate::maintenance::capped;

verus! {

/// Upper bounds of the size classes, in bytes: tiny, small, medium, large;
/// anything bigger is huge.
pub const TINY_MAX: u64 = 1024;

pub const SMALL_MAX: u64 = 10240;

pub const MEDIUM_MAX: u64 = 102400;

pub const LARGE_MAX: u64 = 1048576;

pub const SECS_PER_DAY: u64 = 86400;

/// Files at most this many days old count as recent for growth prediction.
pub const RECENT_DAYS: u64 = 30;

/// Files older than this many days are worth archiving.
pub const ARCHIVE_AFTER_DAYS: u64 = 90;

/// One file met on the walk of the storage directory.
pub struct FileSample {
    /// Logical length.
    pub size: u64,
    /// Bytes allocated on the volume (blocks times block size).
    pub allocated: u64,
    /// Seconds since creation, when the platform reports it.
    pub age_secs: Option<u64>,
}

/// What the walk of the storage directory adds up to.
pub struct UsageSummary {
    pub file_count: usize,
    /// Directories met below the storage directory.
    pub directory_count: u64,
    /// Inodes in use: files plus directories (saturating).
    pub inode_usage: u64,
    /// Length of the largest file, 0 without files.
    pub largest_file_size: u64,
    /// Length of the smallest file, 0 without files.
    pub smallest_file_size: u64,
    /// Sum of the files' lengths (saturating).
    pub total_used_space: u64,
    /// Sum of allocation beyond each file's length (saturating).
    pub wasted_space: u64,
    /// `total_used_space / file_count`, or 0 without files.
    pub average_file_size: u64,
    pub tiny_files: u64,
    pub small_files: u64,
    pub medium_files: u64,
    pub large_files: u64,
    pub huge_files: u64,
    /// Files whose age is known.
    pub aged_files: u64,
    /// Sum of the known ages, in whole days.
    pub age_day_sum: u128,
    /// Sum of the squares of the known ages, in whole days.
    pub age_day_square_sum: u128,
    /// Files whose age is known and at most `RECENT_DAYS` days.
    pub recent_files: u64,
    /// Files whose age is known and over `ARCHIVE_AFTER_DAYS` days.
    pub old_files: u64,
}

/// Sum of `f` over the samples.
pub open spec fn sample_sum(s: Seq<FileSample>, f: spec_fn(FileSample) -> int) -> int
    decreases s.len(),
{
    if s.len() == 0 {
        0
    } else {
        sample_sum(s.drop_last(), f) + f(s.last())
    }
}

/// Length of the largest sample, 0 for none.
pub open spec fn largest_size_of(s: Seq<FileSample>) -> u64
    decreases s.len(),
{
    if s.len() == 0 {
        0
    } else {
        let rest = largest_size_of(s.drop_last());
        if s.last().size > rest {
            s.last().size
        } else {
            rest
        }
    }
}

/// Length of the smallest sample, 0 for none.
pub open spec fn smallest_size_of(s: Seq<FileSample>) -> u64
    decreases s.len(),
{
    if s.len() == 0 {
        0
    } else if s.len() == 1 {
        s.last().size
    } else {
        let rest = smallest_size_of(s.drop_last());
        if s.last().size < rest {
            s.last().size
        } else {
            rest
        }
    }
}

/// How many samples satisfy `p`.
pub open spec fn sample_count(s: Seq<FileSample>, p: spec_fn(FileSample) -> bool) -> int
    decreases s.len(),
{
    if s.len() == 0 {
        0
    } else {
        sample_count(s.drop_last(), p) + if p(s.last()) {
            1int
        } else {
            0
        }
    }
}

/// Allocation beyond the file's length.
pub open spec fn waste_of(x: FileSample) -> int {
    if x.allocated > x.size {
        x.allocated - x.size
    } else {
        0
    }
}

/// Age in whole days, 0 when unknown.
pub open spec fn age_days_of(x: FileSample) -> int {
    match x.age_secs {
        Some(a) => a as int / SECS_PER_DAY as int,
        None => 0,
    }
}

pub open spec fn is_recent(x: FileSample) -> bool {
    x.age_secs is Some && age_days_of(x) <= RECENT_DAYS
}

pub open spec fn is_old(x: FileSample) -> bool {
    x.age_secs is Some && age_days_of(x) > ARCHIVE_AFTER_DAYS
}

/// The summary of a walk that met the files `s` and `directories`
/// directories.
pub open spec fn summarizes(r: UsageSummary, s: Seq<FileSample>, directories: u64) -> bool {
    &&& r.file_count == s.len()
    &&& r.directory_count == directories
    &&& r.inode_usage == capped(s.len() + directories)
    &&& r.largest_file_size == largest_size_of(s)
    &&& r.smallest_file_size == smallest_size_of(s)
    &&& r.total_used_space == capped(sample_sum(s, |x: FileSample| x.size as int))
    &&& r.wasted_space == capped(sample_sum(s, |x: FileSample| waste_of(x)))
    &&& r.average_file_size == if s.len() == 0 {
        0
    } else {
        r.total_used_space / s.len() as u64
    }
    &&& r.tiny_files == sample_count(s, |x: FileSample| x.size <= TINY_MAX)
    &&& r.small_files == sample_count(s, |x: FileSample| TINY_MAX < x.size <= SMALL_MAX)
    &&& r.medium_files == sample_count(s, |x: FileSample| SMALL_MAX < x.size <= MEDIUM_MAX)
    &&& r.large_files == sample_count(s, |x: FileSample| MEDIUM_MAX < x.size <= LARGE_MAX)
    &&& r.huge_files == sample_count(s, |x: FileSample| LARGE_MAX < x.size)
    &&& r.aged_files == sample_count(s, |x: FileSample| x.age_secs is Some)
    &&& r.age_day_sum == sample_sum(s, |x: FileSample| age_days_of(x))
    &&& r.age_day_square_sum == sample_sum(s, |x: FileSample| age_days_of(x) * age_days_of(x))
    &&& r.recent_files == sample_count(s, |x: FileSample| is_recent(x))
    &&& r.old_files == sample_count(s, |x: FileSample| is_old(x))
}

proof fn lemma_sample_step(s: Seq<FileSample>, i: int)
    requires
        0 <= i < s.len(),
    ensures
        s.subrange(0, i + 1).drop_last() == s.subrange(0, i),
        s.subrange(0, i + 1).last() == s[i],
{
    assert(s.subrange(0, i + 1).drop_last() =~= s.subrange(0, i));
}

proof fn lemma_sample_sum_bound(s: Seq<FileSample>, f: spec_fn(FileSample) -> int, b: int)
    requires
        forall|x: FileSample| 0 <= #[trigger] f(x) <= b,
    ensures
        0 <= sample_sum(s, f) <= s.len() * b,
    decreases s.len(),
{
    if s.len() > 0 {
        lemma_sample_sum_bound(s.drop_last(), f, b);
        assert((s.len() - 1) * b + b == s.len() * b) by (nonlinear_arith);
    }
}

/// Adds one to a count kept below the number of samples seen.
fn bump(n: u64, hit: bool) -> (r: u64)
    requires
        n < u64::MAX,
    ensures
        r == n + if hit {
            1int
        } else {
            0
        },
{
    if hit {
        n + 1
    } else {
        n
    }
}

/// Adds with saturation at the largest `u64`.
fn add_capped(acc: u64, x: u64) -> (r: u64)
    ensures
        forall|s: int| 0 <= s && acc == #[trigger] capped(s) ==> r == capped(s + x),
{
    if acc > u64::MAX - x {
        u64::MAX
    } else {
        acc + x
    }
}

/// Saturating sums of the files' lengths and of their wasted allocation.
fn size_totals(samples: &[FileSample]) -> (r: (u64, u64))
    ensures
        r.0 == capped(sample_sum(samples@, |x: FileSample| x.size as int)),
        r.1 == capped(sample_sum(samples@, |x: FileSample| waste_of(x))),
{
    let ghost s = samples@;
    let mut used: u64 = 0;
    let mut wasted: u64 = 0;
    let mut i: usize = 0;
    while i < samples.len()
        invariant
            s == samples@,
            i <= s.len(),
            used == capped(sample_sum(s.subrange(0, i as int), |x: FileSample| x.size as int)),
            wasted == capped(sample_sum(s.subrange(0, i as int), |x: FileSample| waste_of(x))),
        decreases s.len() - i,
    {
        let x = &samples[i];
        proof {
            lemma_sample_step(s, i as int);
            let p = s.subrange(0, i as int);
            lemma_sample_sum_bound(p, |x: FileSample| x.size as int, u64::MAX as int);
            lemma_sample_sum_bound(p, |x: FileSample| waste_of(x), u64::MAX as int);
        }
        used = add_capped(used, x.size);
        let waste = if x.allocated > x.size {
            x.allocated - x.size
        } else {
            0
        };
        wasted = add_capped(wasted, waste);
        i = i + 1;
    }
    proof {
        assert(s.subrange(0, s.len() as int) =~= s);
    }
    (used, wasted)
}

/// How many files fall in each size class: tiny, small, medium, large, huge.
fn size_classes(samples: &[FileSample]) -> (r: (u64, u64, u64, u64, u64))
    requires
        samples@.len() <= u32::MAX,
    ensures
        r.0 == sample_count(samples@, |x: FileSample| x.size <= TINY_MAX),
        r.1 == sample_count(samples@, |x: FileSample| TINY_MAX < x.size <= SMALL_MAX),
        r.2 == sample_count(samples@, |x: FileSample| SMALL_MAX < x.size <= MEDIUM_MAX),
        r.3 == sample_count(samples@, |x: FileSample| MEDIUM_MAX < x.size <= LARGE_MAX),
        r.4 == sample_count(samples@, |x: FileSample| LARGE_MAX < x.size),
{
    let ghost s = samples@;
    let mut tiny: u64 = 0;
    let mut small: u64 = 0;
    let mut medium: u64 = 0;
    let mut large: u64 = 0;
    let mut huge: u64 = 0;
    let mut i: usize = 0;
    while i < samples.len()
        invariant
            s == samples@,
            s.len() <= u32::MAX,
            i <= s.len(),
            tiny == sample_count(s.subrange(0, i as int), |x: FileSample| x.size <= TINY_MAX),
            small == sample_count(
                s.subrange(0, i as int),
                |x: FileSample| TINY_MAX < x.size <= SMALL_MAX,
            ),
            medium == sample_count(
                s.subrange(0, i as int),
                |x: FileSample| SMALL_MAX < x.size <= MEDIUM_MAX,
            ),
            large == sample_count(
                s.subrange(0, i as int),
                |x: FileSample| MEDIUM_MAX < x.size <= LARGE_MAX,
            ),
            huge == sample_count(s.subrange(0, i as int), |x: FileSample| LARGE_MAX < x.size),
            tiny <= i && small <= i && medium <= i && large <= i && huge <= i,
        decreases s.len() - i,
    {
        let x = &samples[i];
        proof {
            lemma_sample_step(s, i as int);
        }
        tiny = bump(tiny, x.size <= TINY_MAX);
        small = bump(small, TINY_MAX < x.size && x.size <= SMALL_MAX);
        medium = bump(medium, SMALL_MAX < x.size && x.size <= MEDIUM_MAX);
        large = bump(large, MEDIUM_MAX < x.size && x.size <= LARGE_MAX);
        huge = bump(huge, LARGE_MAX < x.size);
        i = i + 1;
    }
    proof {
        assert(s.subrange(0, s.len() as int) =~= s);
    }
    (tiny, small, medium, large, huge)
}

/// How many files are older than `ARCHIVE_AFTER_DAYS` days.
fn old_file_count(samples: &[FileSample]) -> (r: u64)
    requires
        samples@.len() <= u32::MAX,
    ensures
        r == sample_count(samples@, |x: FileSample| is_old(x)),
{
    let ghost s = samples@;
    let mut old: u64 = 0;
    let mut i: usize = 0;
    while i < samples.len()
        invariant
            s == samples@,
            s.len() <= u32::MAX,
            i <= s.len(),
            old == sample_count(s.subrange(0, i as int), |x: FileSample| is_old(x)),
            old <= i,
        decreases s.len() - i,
    {
        proof {
            lemma_sample_step(s, i as int);
        }
        let hit = match samples[i].age_secs {
            Some(a) => a / SECS_PER_DAY > ARCHIVE_AFTER_DAYS,
            None => false,
        };
        old = bump(old, hit);
        i = i + 1;
    }
    proof {
        assert(s.subrange(0, s.len() as int) =~= s);
    }
    old
}

/// The largest age in whole days that a `u64` count of seconds gives.
pub const MAX_AGE_DAYS: u64 = 213503982334601;

/// Files with a known age, the sum of their ages and of the squares of their
/// ages in whole days, and how many of them are recent.
#[verifier::rlimit(40)]
fn age_totals(samples: &[FileSample]) -> (r: (u64, u128, u128, u64))
    requires
        samples@.len() <= u32::MAX,
    ensures
        r.0 == sample_count(samples@, |x: FileSample| x.age_secs is Some),
        r.1 == sample_sum(samples@, |x: FileSample| age_days_of(x)),
        r.2 == sample_sum(samples@, |x: FileSample| age_days_of(x) * age_days_of(x)),
        r.3 == sample_count(samples@, |x: FileSample| is_recent(x)),
{
    let ghost s = samples@;
    let mut aged: u64 = 0;
    let mut day_sum: u128 = 0;
    let mut square_sum: u128 = 0;
    let mut recent: u64 = 0;
    let mut i: usize = 0;
    while i < samples.len()
        invariant
            s == samples@,
            s.len() <= u32::MAX,
            i <= s.len(),
            aged == sample_count(s.subrange(0, i as int), |x: FileSample| x.age_secs is Some),
            day_sum == sample_sum(s.subrange(0, i as int), |x: FileSample| age_days_of(x)),
            square_sum == sample_sum(
                s.subrange(0, i as int),
                |x: FileSample| age_days_of(x) * age_days_of(x),
            ),
            recent == sample_count(s.subrange(0, i as int), |x: FileSample| is_recent(x)),
            aged <= i && recent <= i,
            day_sum <= i * MAX_AGE_DAYS,
            square_sum <= i * (MAX_AGE_DAYS * MAX_AGE_DAYS),
        decreases s.len() - i,
    {
        let x = &samples[i];
        proof {
            lemma_sample_step(s, i as int);
        }
        if let Some(a) = x.age_secs {
            let d: u64 = a / SECS_PER_DAY;
            proof {
                assert(d == age_days_of(*x));
                assert(d <= MAX_AGE_DAYS);
                assert(d * d <= MAX_AGE_DAYS * MAX_AGE_DAYS) by (nonlinear_arith)
                    requires
                        d <= MAX_AGE_DAYS,
                ;
                assert(i * (MAX_AGE_DAYS * MAX_AGE_DAYS) + MAX_AGE_DAYS * MAX_AGE_DAYS == (i + 1)
                    * (MAX_AGE_DAYS * MAX_AGE_DAYS)) by (nonlinear_arith);
                assert(i * MAX_AGE_DAYS + MAX_AGE_DAYS == (i + 1) * MAX_AGE_DAYS) by (
                nonlinear_arith);
                assert((i + 1) * (MAX_AGE_DAYS * MAX_AGE_DAYS) <= 4294967296 * (MAX_AGE_DAYS
                    * MAX_AGE_DAYS)) by (nonlinear_arith)
                    requires
                        i + 1 <= 4294967296,
                ;
            }
            aged = aged + 1;
            day_sum = day_sum + d as u128;
            square_sum = square_sum + (d as u128) * (d as u128);
            recent = bump(recent, d <= RECENT_DAYS);
        } else {
            proof {
                assert(i * MAX_AGE_DAYS <= (i + 1) * MAX_AGE_DAYS) by (nonlinear_arith);
                assert(i * (MAX_AGE_DAYS * MAX_AGE_DAYS) <= (i + 1) * (MAX_AGE_DAYS
                    * MAX_AGE_DAYS)) by (nonlinear_arith);
            }
        }
        i = i + 1;
    }
    proof {
        assert(s.subrange(0, s.len() as int) =~= s);
    }
    (aged, day_sum, square_sum, recent)
}

/// The lengths of the largest and of the smallest file, 0 without files.
fn size_extremes(samples: &[FileSample]) -> (r: (u64, u64))
    ensures
        r.0 == largest_size_of(samples@),
        r.1 == smallest_size_of(samples@),
{
    let ghost s = samples@;
    let mut largest: u64 = 0;
    let mut smallest: u64 = 0;
    let mut i: usize = 0;
    while i < samples.len()
        invariant
            s == samples@,
            i <= s.len(),
            largest == largest_size_of(s.subrange(0, i as int)),
            smallest == smallest_size_of(s.subrange(0, i as int)),
        decreases s.len() - i,
    {
        proof {
            lemma_sample_step(s, i as int);
        }
        let size = samples[i].size;
        if size > largest {
            largest = size;
        }
        if i == 0 || size < smallest {
            smallest = size;
        }
        i = i + 1;
    }
    proof {
        assert(s.subrange(0, s.len() as int) =~= s);
    }
    (largest, smallest)
}

/// Summarizes a walk of the storage directory that met the files `samples`
/// and `directory_count` directories: buckets the files by size and age,
/// adds up their lengths and wasted allocation, and counts inodes.
pub fn calculate_detailed_storage_usage(samples: &[FileSample], directory_count: u64) -> (r:
    UsageSummary)
    requires
        samples@.len() <= u32::MAX,
    ensures
        summarizes(r, samples@, directory_count),
{
    let (largest, smallest) = size_extremes(samples);
    let files = samples.len() as u64;
    let inodes = if files > u64::MAX - directory_count {
        u64::MAX
    } else {
        files + directory_count
    };
    let (used, wasted) = size_totals(samples);
    let (tiny, small, medium, large, huge) = size_classes(samples);
    let (aged, day_sum, square_sum, recent) = age_totals(samples);
    let old = old_file_count(samples);
    let average = if samples.len() == 0 {
        0
    } else {
        used / samples.len() as u64
    };
    UsageSummary {
        file_count: samples.len(),
        directory_count,
        inode_usage: inodes,
        largest_file_size: largest,
        smallest_file_size: smallest,
        total_used_space: used,
        wasted_space: wasted,
        average_file_size: average,
        tiny_files: tiny,
        small_files: small,
        medium_files: medium,
        large_files: large,
        huge_files: huge,
        aged_files: aged,
        age_day_sum: day_sum,
        age_day_square_sum: square_sum,
        recent_files: recent,
        old_files: old,
    }
}

/// Predicted bytes per day: recent files per day (over `RECENT_DAYS`) times
/// the average size, times 1.2 when recent creation outpaces the long-run
/// rate and 0.8 otherwise, rounded down; 0 without recent files or size.
pub open spec fn growth_of(recent: int, file_count: int, average: int) -> u64 {
    if recent == 0 || average == 0 {
        0
    } else {
        let trend: int = if recent > (file_count - recent) / 30 {
            12
        } else {
            8
        };
        capped(recent * average * trend / 300int)
    }
}

/// Predicts daily storage growth from a directory summary.
pub fn predict_storage_growth(summary: &UsageSummary) -> (r: u64)
    requires
        summary.recent_files <= summary.file_count,
        summary.file_count <= u32::MAX,
    ensures
        r == growth_of(
            summary.recent_files as int,
            summary.file_count as int,
            summary.average_file_size as int,
        ),
{
    let recent = summary.recent_files;
    let average = summary.average_file_size;
    if recent == 0 || average == 0 {
        return 0;
    }
    let older = summary.file_count as u64 - recent;
    let trend: u128 = if recent > older / 30 {
        12
    } else {
        8
    };
    assert(recent as u128 * average as u128 * trend <= 0x1_0000_0000 * 0x1_0000_0000_0000_0000 * 12)
        by (nonlinear_arith)
        requires
            trend <= 12,
            recent <= 0x1_0000_0000,
            average <= 0x1_0000_0000_0000_0000,
    ;
    let product: u128 = (recent as u128) * (average as u128) * trend;
    let daily = product / 300;
    if daily > u64::MAX as u128 {
        u64::MAX
    } else {
        daily as u64
    }
}

/// Maintenance the directory summary calls for. Advice only: nothing is
/// moved or rewritten on its account.
pub struct MaintenanceAdvice {
    /// Wasted allocation exceeds a twentieth of the used space.
    pub defragment: bool,
    /// Tiny files make up more than a quarter of the files.
    pub consolidate: bool,
    /// Files old enough to archive.
    pub archive_files: u64,
}

/// Decides which maintenance a directory summary calls for.
pub fn schedule_storage_maintenance(summary: &UsageSummary) -> (r: MaintenanceAdvice)
    ensures
        r.defragment == (summary.wasted_space > summary.total_used_space / 20),
        r.consolidate == (summary.tiny_files > summary.file_count as u64 / 4),
        r.archive_files == summary.old_files,
{
    MaintenanceAdvice {
        defragment: summary.wasted_space > summary.total_used_space / 20,
        consolidate: summary.tiny_files > summary.file_count as u64 / 4,
        archive_files: summary.old_files,
    }
}

/// Nominal volume size assumed when the platform reports none: 10 GiB.
pub const FALLBACK_TOTAL_SPACE: u64 = 10 * 1024 * 1024 * 1024;

pub const FALLBACK_TOTAL_INODES: u64 = 65536;

pub const FALLBACK_AVAILABLE_INODES: u64 = 32768;

pub const FALLBACK_BLOCK_SIZE: u64 = 4096;

/// Capacity of the volume that holds the storage directory.
pub struct FilesystemStats {
    pub total_space: u64,
    pub available_space: u64,
    pub used_space: u64,
    pub total_inodes: u64,
    pub available_inodes: u64,
    pub block_size: u64,
}

/// The conservative estimate used when the platform cannot report the
/// volume: a 10 GiB volume of which `used_space` is taken.
pub fn get_fallback_filesystem_stats(used_space: u64) -> (r: FilesystemStats)
    ensures
        r.total_space == FALLBACK_TOTAL_SPACE,
        r.used_space == used_space,
        r.available_space == if used_space < FALLBACK_TOTAL_SPACE {
            (FALLBACK_TOTAL_SPACE - used_space) as u64
        } else {
            0
        },
        r.total_inodes == FALLBACK_TOTAL_INODES,
        r.available_inodes == FALLBACK_AVAILABLE_INODES,
        r.block_size == FALLBACK_BLOCK_SIZE,
{
    FilesystemStats {
        total_space: FALLBACK_TOTAL_SPACE,
        available_space: FALLBACK_TOTAL_SPACE.saturating_sub(used_space),
        used_space,
        total_inodes: FALLBACK_TOTAL_INODES,
        available_inodes: FALLBACK_AVAILABLE_INODES,
        block_size: FALLBACK_BLOCK_SIZE,
    }
}

/// The volume's capacity from its block counts, as a statvfs-like call
/// reports them; `None` when the counts are inconsistent (more free blocks
/// than blocks) or a byte count does not fit in `u64`.
pub fn filesystem_stats_from_blocks(
    block_size: u64,
    total_blocks: u64,
    free_blocks: u64,
    total_inodes: u64,
    free_inodes: u64,
) -> (r: Option<FilesystemStats>)
    ensures
        r matches Some(st) ==> {
            &&& st.total_space == total_blocks * block_size
            &&& st.available_space == free_blocks * block_size
            &&& st.used_space == (total_blocks - free_blocks) * block_size
            &&& st.total_inodes == total_inodes
            &&& st.available_inodes == free_inodes
            &&& st.block_size == block_size
        },
        r is None <==> (free_blocks > total_blocks || total_blocks * block_size > u64::MAX),
{
    if free_blocks > total_blocks {
        return None;
    }
    let total = match total_blocks.checked_mul(block_size) {
        Some(t) => t,
        None => return None,
    };
    assert(free_blocks * block_size <= total_blocks * block_size) by (nonlinear_arith)
        requires
            free_blocks <= total_blocks,
    ;
    assert((total_blocks - free_blocks) * block_size <= total_blocks * block_size) by (nonlinear_arith)
        requires
            free_blocks <= total_blocks,
    ;
    let available = free_blocks * block_size;
    let used = (total_blocks - free_blocks) * block_size;
    Some(
        FilesystemStats {
            total_space: total,
            available_space: available,
            used_space: used,
            total_inodes,
            available_inodes: free_inodes,
            block_size,
        },
    )
}

} // verus!
