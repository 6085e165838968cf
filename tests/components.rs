use enclave_storage::aead::{derive_record_key, obtain_master_key, open_blob, seal_blob, MasterKeySource};
use enclave_storage::analytics::{
    calculate_detailed_storage_usage, filesystem_stats_from_blocks, get_fallback_filesystem_stats,
    predict_storage_growth, schedule_storage_maintenance, FileSample, UsageSummary,
};
use enclave_storage::codec::{compress_data, decompress_data, stored_form, CompressionType};
use enclave_storage::digest::{data_file_name, is_data_file_name};
use enclave_storage::index::{StorageIndex, StorageMetadata};

fn meta(key: &str) -> StorageMetadata {
    StorageMetadata {
        key: key.to_string(),
        size: 1,
        compressed_size: None,
        created_at: 0,
        accessed_at: 0,
        modified_at: 0,
        compression: None,
        encryption: true,
        hash: String::new(),
        access_count: 0,
    }
}

#[test]
fn file_name_is_hex_digest_of_key() {
    assert_eq!(
        data_file_name("ticker"),
        "data_2c6bc1588bbd04f8ccaa39902a9e94a6291884b20800ff81e209c172fe9e643c.dat"
    );
    assert_eq!(data_file_name("").len(), 5 + 64 + 4);
}

#[test]
fn codecs_round_trip() {
    let data = b"hello hello hello hello hello hello hello".to_vec();
    assert!(compress_data(b"", CompressionType::Gzip).is_some());
    for alg in [CompressionType::Lz4, CompressionType::Gzip] {
        let c = compress_data(&data, alg).unwrap();
        assert_ne!(c, data);
        assert_eq!(decompress_data(&c, alg).unwrap(), data);
    }
    assert_eq!(decompress_data(b"not gzip", CompressionType::Gzip), None);
    assert_eq!(decompress_data(&[1, 2], CompressionType::Lz4), None);
}

#[test]
fn stored_form_policy() {
    let (p, t) = stored_form(&[7u8; 100], true);
    assert_eq!(t, Some(CompressionType::Lz4));
    assert!(p.len() < 100);
    let (p, t) = stored_form(&[7u8; 100], false);
    assert_eq!((p, t), (vec![7u8; 100], None));
    let (p, t) = stored_form(b"ab", true);
    assert_eq!((p, t), (b"ab".to_vec(), None));
}

#[test]
fn record_keys_depend_on_secret_and_master() {
    let k1 = derive_record_key(&[0u8; 32], "a").unwrap();
    assert_eq!(k1.len(), 32);
    assert_eq!(k1, derive_record_key(&[0u8; 32], "a").unwrap());
    assert_ne!(k1, derive_record_key(&[0u8; 32], "b").unwrap());
    assert_ne!(k1, derive_record_key(&[1u8; 32], "a").unwrap());
    assert_ne!(k1, vec![0u8; 32]);
}

#[test]
fn seal_and_open() {
    let key = vec![9u8; 32];
    let blob = seal_blob(&key, b"plain").unwrap();
    assert_eq!(blob.len(), 5 + 28);
    assert_ne!(&blob[12..17], b"plain");
    assert_eq!(open_blob(&key, &blob).unwrap(), b"plain".to_vec());
    assert_eq!(open_blob(&[8u8; 32], &blob), None);
    let other = seal_blob(&key, b"plain").unwrap();
    assert_ne!(blob[..12], other[..12]);
}

#[test]
fn master_key_selection() {
    match obtain_master_key(Some(vec![5u8; 32])).unwrap() {
        MasterKeySource::Existing(k) => assert_eq!(k, vec![5u8; 32]),
        MasterKeySource::Generated(_) => panic!("a 32-byte key must be kept"),
    }
    for existing in [None, Some(vec![5u8; 31]), Some(vec![5u8; 33])] {
        match obtain_master_key(existing).unwrap() {
            MasterKeySource::Generated(k) => assert_eq!(k.len(), 32),
            MasterKeySource::Existing(_) => panic!("a new key must be generated"),
        }
    }
}

#[test]
fn index_rejects_duplicate_keys() {
    assert!(StorageIndex::from_entries(vec![meta("a"), meta("b"), meta("a")]).is_none());
    let ix = StorageIndex::from_entries(vec![meta("a"), meta("b")]).unwrap();
    assert_eq!(ix.len(), 2);
    assert_eq!(ix.find("b"), Some(1));
    assert_eq!(ix.find("c"), None);
    assert_eq!(ix.keys(), vec!["a".to_string(), "b".to_string()]);
}

#[test]
fn usage_summary_buckets() {
    let day = 86400;
    let samples = vec![
        FileSample { size: 1024, allocated: 4096, age_secs: Some(0) },
        FileSample { size: 1025, allocated: 4096, age_secs: Some(10 * day) },
        FileSample { size: 102400, allocated: 102400, age_secs: Some(40 * day + 5) },
        FileSample { size: 2_000_000, allocated: 1_000_000, age_secs: None },
    ];
    let s = calculate_detailed_storage_usage(&samples, 2);
    assert_eq!(s.file_count, 4);
    assert_eq!((s.directory_count, s.inode_usage), (2, 6));
    assert_eq!((s.largest_file_size, s.smallest_file_size), (2_000_000, 1024));
    assert_eq!(s.total_used_space, 1024 + 1025 + 102400 + 2_000_000);
    assert_eq!(s.wasted_space, 3072 + 3071);
    assert_eq!(s.average_file_size, (1024 + 1025 + 102400 + 2_000_000) / 4);
    assert_eq!((s.tiny_files, s.small_files, s.medium_files, s.large_files, s.huge_files), (1, 1, 1, 0, 1));
    assert_eq!(s.aged_files, 3);
    assert_eq!(s.age_day_sum, 50);
    assert_eq!(s.age_day_square_sum, 100 + 1600);
    assert_eq!(s.recent_files, 2);
    assert_eq!(s.old_files, 0);
    let empty = calculate_detailed_storage_usage(&[], 0);
    assert_eq!((empty.file_count, empty.average_file_size, empty.total_used_space), (0, 0, 0));
    assert_eq!((empty.largest_file_size, empty.smallest_file_size, empty.inode_usage), (0, 0, 0));
    assert_eq!(calculate_detailed_storage_usage(&[], u64::MAX).inode_usage, u64::MAX);
}

fn summary(file_count: usize, recent: u64, average: u64) -> UsageSummary {
    UsageSummary {
        file_count,
        directory_count: 0,
        inode_usage: file_count as u64,
        largest_file_size: average,
        smallest_file_size: average,
        total_used_space: average * file_count as u64,
        wasted_space: 0,
        average_file_size: average,
        tiny_files: 0,
        small_files: 0,
        medium_files: 0,
        large_files: 0,
        huge_files: 0,
        aged_files: recent,
        age_day_sum: 0,
        age_day_square_sum: 0,
        recent_files: recent,
        old_files: 0,
    }
}

#[test]
fn growth_prediction() {
    // 30 recent files of 1000 bytes: one file a day, accelerating: 1.2 * 1000.
    assert_eq!(predict_storage_growth(&summary(30, 30, 1000)), 1200);
    // 1 recent file among 100: 1/30 a day, decelerating: 1000 / 30 * 0.8.
    assert_eq!(predict_storage_growth(&summary(100, 1, 1000)), 26);
    assert_eq!(predict_storage_growth(&summary(10, 0, 1000)), 0);
    assert_eq!(predict_storage_growth(&summary(10, 5, 0)), 0);
}

#[test]
fn filesystem_capacity() {
    let f = get_fallback_filesystem_stats(1024);
    assert_eq!(f.total_space, 10 * 1024 * 1024 * 1024);
    assert_eq!(f.available_space, 10 * 1024 * 1024 * 1024 - 1024);
    assert_eq!((f.total_inodes, f.available_inodes, f.block_size), (65536, 32768, 4096));
    assert_eq!(get_fallback_filesystem_stats(u64::MAX).available_space, 0);
    let v = filesystem_stats_from_blocks(4096, 100, 40, 10, 5).unwrap();
    assert_eq!((v.total_space, v.available_space, v.used_space), (409600, 163840, 245760));
    assert!(filesystem_stats_from_blocks(4096, 10, 11, 0, 0).is_none());
    assert!(filesystem_stats_from_blocks(u64::MAX, 2, 1, 0, 0).is_none());
}

#[test]
fn maintenance_advice() {
    let day = 86400;
    let samples = vec![
        FileSample { size: 10, allocated: 4096, age_secs: Some(91 * day) },
        FileSample { size: 20, allocated: 4096, age_secs: Some(90 * day) },
        FileSample { size: 100_000, allocated: 100_000, age_secs: Some(365 * day) },
    ];
    let s = calculate_detailed_storage_usage(&samples, 0);
    assert_eq!(s.old_files, 2);
    let advice = schedule_storage_maintenance(&s);
    assert!(advice.defragment);
    assert!(advice.consolidate);
    assert_eq!(advice.archive_files, 2);
    let quiet = schedule_storage_maintenance(&calculate_detailed_storage_usage(&samples[2..], 0));
    assert!(!quiet.defragment);
    assert!(!quiet.consolidate);
    assert_eq!(quiet.archive_files, 1);
}

#[test]
fn data_file_names() {
    assert!(is_data_file_name(&data_file_name("ticker")));
    assert!(is_data_file_name("data_x.dat"));
    assert!(is_data_file_name("data_.dat"));
    assert!(!is_data_file_name("data.dat"));
    assert!(!is_data_file_name("index.json"));
    assert!(!is_data_file_name("data_x.dat.tmp"));
    assert!(!is_data_file_name("xdata_x.dat"));
}

#[test]
fn index_refuses_invalid_snapshots() {
    let mut bad = meta("a");
    bad.compressed_size = Some(1);
    assert!(StorageIndex::from_entries(vec![bad]).is_none());
    let mut good = meta("a");
    good.size = 10;
    good.compressed_size = Some(9);
    assert!(StorageIndex::from_entries(vec![good.clone()]).is_some());
    assert!(StorageIndex::from_snapshot(vec![("b".to_string(), meta("a"))]).is_none());
    let ix = StorageIndex::from_snapshot(vec![("a".to_string(), good), ("b".to_string(), meta("b"))]).unwrap();
    assert_eq!(ix.keys(), vec!["a".to_string(), "b".to_string()]);
}
