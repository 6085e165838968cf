use enclave_storage::aead::{derive_record_key, seal_blob, seal_with_nonce};
use enclave_storage::codec::CompressionType;
use enclave_storage::digest::{content_hash, data_file_name};
use enclave_storage::index::{StorageIndex, StorageMetadata};
use enclave_storage::maintenance::DiskFile;
use enclave_storage::service::{StorageError, StorageService, DEFAULT_MAX_FILE_SIZE};

fn service() -> StorageService {
    StorageService::new(vec![7u8; 32], StorageIndex::new())
}

/// Bytes that LZ4 cannot shrink.
fn noise(len: usize, seed: u32) -> Vec<u8> {
    let mut x: u32 = seed.wrapping_mul(2654435761).wrapping_add(1);
    let mut out = Vec::with_capacity(len);
    for _ in 0..len {
        x = x.wrapping_mul(1664525).wrapping_add(1013904223);
        out.push((x >> 24) as u8);
    }
    out
}

#[test]
fn round_trip_uncompressed() {
    let mut s = service();
    for (i, data) in [Vec::new(), b"x".to_vec(), noise(1000, 3), vec![0u8; 4096]].iter().enumerate() {
        let key = format!("k{}", i);
        let rec = s.store_data(&key, data, "secret", false, 10).unwrap();
        assert_eq!(rec.metadata.compression, None);
        assert_eq!(rec.blob.len(), data.len() + 28);
        let back = s.retrieve_data(&key, &rec.blob, "secret", 11).unwrap();
        assert_eq!(&back, data);
    }
}

#[test]
fn round_trip_compressed() {
    let mut s = service();
    let data = vec![b'a'; 5000];
    let rec = s.store_data("c", &data, "pw", true, 1).unwrap();
    assert_eq!(rec.metadata.compression, Some(CompressionType::Lz4));
    let kept = rec.metadata.compressed_size.unwrap();
    assert!(kept < 5000);
    assert_eq!(rec.blob.len() as u64, kept + 28);
    assert_eq!(s.retrieve_data("c", &rec.blob, "pw", 2).unwrap(), data);
}

#[test]
fn compression_not_kept_when_larger() {
    let mut s = service();
    let data = noise(300, 9);
    let rec = s.store_data("n", &data, "pw", true, 1).unwrap();
    assert_eq!(rec.metadata.compression, None);
    assert_eq!(rec.metadata.compressed_size, None);
    assert_eq!(s.retrieve_data("n", &rec.blob, "pw", 2).unwrap(), data);
}

#[test]
fn wrong_secret_rejected() {
    let mut s = service();
    let rec = s.store_data("k", b"payload", "right", false, 1).unwrap();
    assert_eq!(s.retrieve_data("k", &rec.blob, "wrong", 2), Err(StorageError::DecryptionFailed));
    let m = s.get_metadata("k").unwrap();
    assert_eq!(m.access_count, 0);
    assert_eq!(m.accessed_at, 1);
}

#[test]
fn no_overwrite() {
    let mut s = service();
    let first = s.store_data("k", b"first", "pw", false, 1).unwrap();
    assert!(matches!(s.store_data("k", b"second", "pw", false, 2), Err(StorageError::AlreadyExists)));
    assert_eq!(s.list_keys().unwrap(), vec!["k".to_string()]);
    assert_eq!(s.get_metadata("k").unwrap().size, 5);
    assert_eq!(s.retrieve_data("k", &first.blob, "pw", 3).unwrap(), b"first".to_vec());
}

#[test]
fn tamper_detected_at_every_byte() {
    let mut s = service();
    let rec = s.store_data("t", b"tamper me", "pw", false, 1).unwrap();
    for i in 0..rec.blob.len() {
        let mut bad = rec.blob.clone();
        bad[i] ^= 0x01;
        assert_eq!(s.retrieve_data("t", &bad, "pw", 2), Err(StorageError::DecryptionFailed));
    }
    assert_eq!(s.retrieve_data("t", &rec.blob[..27], "pw", 2), Err(StorageError::DecryptionFailed));
}

#[test]
fn size_bound() {
    let mut s = service().with_max_file_size(10);
    assert!(matches!(s.store_data("big", &[1u8; 11], "pw", false, 1), Err(StorageError::SizeLimitExceeded)));
    assert!(s.list_keys().unwrap().is_empty());
    assert!(s.store_data("fits", &[1u8; 10], "pw", false, 1).is_ok());
    assert_eq!(service().store_data("k", b"", "pw", false, 0).unwrap().metadata.size, 0);
    assert_eq!(DEFAULT_MAX_FILE_SIZE, 104857600);
}

#[test]
fn delete_finality() {
    let mut s = service();
    let rec = s.store_data("gone", b"bytes", "pw", false, 1).unwrap();
    let removed = s.delete_data("gone").unwrap();
    assert_eq!(removed.key, "gone");
    assert_eq!(s.retrieve_data("gone", &rec.blob, "pw", 2), Err(StorageError::NotFound));
    assert!(matches!(s.delete_data("gone"), Err(StorageError::NotFound)));
    assert!(s.store_data("gone", b"again", "pw", false, 3).is_ok());
}

#[test]
fn scenario_ticker() {
    let mut s = service();
    let rec = s.store_data("ticker", b"ETH/USD=3000", "pw1", false, 100).unwrap();
    let m = &rec.metadata;
    assert_eq!(m.key, "ticker");
    assert_eq!(m.size, 12);
    assert_eq!(m.compression, None);
    assert_eq!(m.compressed_size, None);
    assert!(m.encryption);
    assert_eq!(m.access_count, 0);
    assert_eq!((m.created_at, m.accessed_at, m.modified_at), (100, 100, 100));
    assert_eq!(m.hash, "0e7aeb4e86a479fdc864b55e23796cad73afe2b19a9f3ec222c99e83e3650e94");
    assert_eq!(
        rec.file_name,
        "data_2c6bc1588bbd04f8ccaa39902a9e94a6291884b20800ff81e209c172fe9e643c.dat"
    );
    assert_eq!(s.retrieve_data("ticker", &rec.blob, "pw1", 200).unwrap(), b"ETH/USD=3000".to_vec());
    assert_eq!(s.retrieve_data("ticker", &rec.blob, "pw2", 300), Err(StorageError::DecryptionFailed));
    let after = s.get_metadata("ticker").unwrap();
    assert_eq!(after.access_count, 1);
    assert_eq!(after.accessed_at, 200);
    assert_eq!(after.created_at, 100);
}

#[test]
fn scenario_usage_stats() {
    let mut s = service();
    for (i, n) in [100usize, 200, 300].iter().enumerate() {
        let rec = s.store_data(&format!("r{}", i), &noise(*n, i as u32), "pw", true, 1).unwrap();
        assert_eq!(rec.metadata.compression, None);
    }
    let st = s.get_usage_stats(5000, 7000).unwrap();
    assert_eq!(st.total_files, 3);
    assert_eq!(st.total_size, 600);
    assert_eq!(st.total_compressed_size, 600);
    assert_eq!((st.used_space, st.available_space), (5000, 7000));
    assert_eq!(st.compression_savings, 0);
    let (num, den) = st.compression_ratio();
    assert_eq!(num as f64 / den as f64, 1.0);
}

#[test]
fn usage_stats_counts_compressed_size() {
    let mut s = service();
    assert_eq!(s.get_usage_stats(0, 0).unwrap().compression_ratio(), (1, 1));
    let rec = s.store_data("z", &vec![0u8; 2000], "pw", true, 1).unwrap();
    let kept = rec.metadata.compressed_size.unwrap();
    let st = s.get_usage_stats(0, 0).unwrap();
    assert_eq!(st.total_size, 2000);
    assert_eq!(st.total_compressed_size, kept);
    assert_eq!(st.compression_savings, 2000 - kept);
    assert_eq!(st.compression_ratio(), (kept, 2000));
}

#[test]
fn scenario_orphan_cleanup() {
    let mut s = service();
    let a = s.store_data("alpha", b"first record", "pw", false, 1).unwrap();
    let b = s.store_data("beta", b"second", "pw", false, 1).unwrap();
    s.delete_data("beta").unwrap();
    let files = vec![
        DiskFile { name: "index.json".to_string(), size: 500 },
        DiskFile { name: a.file_name.clone(), size: a.blob.len() as u64 },
        DiskFile { name: b.file_name.clone(), size: b.blob.len() as u64 },
        DiskFile { name: ".master_key".to_string(), size: 32 },
    ];
    let report = s.optimize_storage(&files, 2).unwrap();
    assert_eq!(report.orphaned_files, vec![data_file_name("beta")]);
    assert_eq!(report.bytes_reclaimed, 34);
}

#[test]
fn optimizer_candidates() {
    let mut s = service();
    let big = s.store_data("big", &noise(2000, 1), "pw", false, 0).unwrap();
    s.store_data("small", b"tiny", "pw", false, 0).unwrap();
    for t in 0..11 {
        s.retrieve_data("big", &big.blob, "pw", t).unwrap();
    }
    let day = 24 * 3600;
    let report = s.optimize_storage(&[], 100 * day).unwrap();
    assert!(report.orphaned_files.is_empty());
    assert_eq!(report.bytes_reclaimed, 0);
    assert_eq!(report.compression_candidates, 1);
    assert_eq!(report.consolidation_candidates, 1);
    assert_eq!(report.archival_candidates, 1);
    let early = s.optimize_storage(&[], 10).unwrap();
    assert_eq!(early.archival_candidates, 0);
}

#[test]
fn error_variants() {
    let mut s = service();
    assert!(matches!(s.store_data("", b"x", "pw", false, 0), Err(StorageError::InvalidKey)));
    assert_eq!(s.retrieve_data("", b"", "pw", 0), Err(StorageError::InvalidKey));
    assert!(matches!(s.delete_data(""), Err(StorageError::InvalidKey)));
    assert!(matches!(s.get_metadata("none"), Err(StorageError::NotFound)));
    assert_eq!(s.retrieve_data("none", b"", "pw", 0), Err(StorageError::NotFound));
    let a = s.store_data("a", b"aaaa", "pw", false, 0).unwrap();
    let b = s.store_data("b", b"bbbb", "pw", false, 0).unwrap();
    assert_eq!(s.retrieve_data("a", &b.blob, "pw", 1), Err(StorageError::IntegrityViolation));
    assert_eq!(s.retrieve_data("a", &a.blob, "pw", 1).unwrap(), b"aaaa".to_vec());
}

#[test]
fn inconsistent_state_is_sticky() {
    let mut s = service();
    let rec = s.store_data("k", b"v", "pw", false, 0).unwrap();
    s.mark_inconsistent();
    assert!(s.is_degraded());
    assert!(matches!(s.store_data("k2", b"v", "pw", false, 0), Err(StorageError::InconsistentState)));
    assert_eq!(s.retrieve_data("k", &rec.blob, "pw", 0), Err(StorageError::InconsistentState));
    assert!(matches!(s.delete_data("k"), Err(StorageError::InconsistentState)));
    assert!(matches!(s.get_metadata("k"), Err(StorageError::InconsistentState)));
    assert!(matches!(s.list_keys(), Err(StorageError::InconsistentState)));
    assert!(matches!(s.get_usage_stats(0, 0), Err(StorageError::InconsistentState)));
    assert!(matches!(s.optimize_storage(&[], 0), Err(StorageError::InconsistentState)));
}

#[test]
fn content_hash_of_known_inputs() {
    assert_eq!(content_hash(b"abc"), "ba7816bf8f01cfea414140de5dae2223b00361a396177a9cb410ff61f20015ad");
    assert_eq!(content_hash(b""), "e3b0c44298fc1c149afbf4c8996fb92427ae41e4649b934ca495991b7852b855");
}

#[test]
fn master_key_changes_record_keys() {
    let mut a = StorageService::new(vec![1u8; 32], StorageIndex::new());
    let mut b = StorageService::new(vec![2u8; 32], StorageIndex::new());
    let rec = a.store_data("k", b"secret data", "pw", false, 0).unwrap();
    b.store_data("k", b"secret data", "pw", false, 0).unwrap();
    assert_eq!(b.retrieve_data("k", &rec.blob, "pw", 1), Err(StorageError::DecryptionFailed));
    assert_eq!(a.retrieve_data("k", &rec.blob, "pw", 1).unwrap(), b"secret data".to_vec());
}

#[test]
fn wrong_compression_tag_is_integrity_violation() {
    let master = vec![3u8; 32];
    let entry = StorageMetadata {
        key: "k".to_string(),
        size: 7,
        compressed_size: Some(5),
        created_at: 0,
        accessed_at: 0,
        modified_at: 0,
        compression: Some(CompressionType::Lz4),
        encryption: true,
        hash: content_hash(b"payload"),
        access_count: 0,
    };
    let index = StorageIndex::from_entries(vec![entry]).unwrap();
    let mut s = StorageService::new(master.clone(), index);
    let key = derive_record_key(&master, "pw").unwrap();
    let blob = seal_blob(&key, &[0xf0]).unwrap();
    assert_eq!(s.retrieve_data("k", &blob, "pw", 1), Err(StorageError::IntegrityViolation));
    assert_eq!(s.get_metadata("k").unwrap().access_count, 0);
}

#[test]
fn wrong_recorded_size_is_integrity_violation() {
    let master = vec![4u8; 32];
    let entry = StorageMetadata {
        key: "k".to_string(),
        size: 8,
        compressed_size: None,
        created_at: 0,
        accessed_at: 0,
        modified_at: 0,
        compression: None,
        encryption: true,
        hash: content_hash(b"payload"),
        access_count: 0,
    };
    let mut s = StorageService::new(master.clone(), StorageIndex::from_entries(vec![entry]).unwrap());
    let key = derive_record_key(&master, "pw").unwrap();
    let blob = seal_with_nonce(&key, vec![1u8; 12], b"payload").unwrap();
    assert_eq!(&blob[..12], &[1u8; 12]);
    assert_eq!(blob.len(), 7 + 28);
    assert_eq!(s.retrieve_data("k", &blob, "pw", 1), Err(StorageError::IntegrityViolation));
}

#[test]
fn sealing_with_a_given_nonce_is_deterministic() {
    let key = vec![6u8; 32];
    let a = seal_with_nonce(&key, vec![2u8; 12], b"same").unwrap();
    let b = seal_with_nonce(&key, vec![2u8; 12], b"same").unwrap();
    assert_eq!(a, b);
    assert_ne!(a, seal_with_nonce(&key, vec![3u8; 12], b"same").unwrap());
    assert_ne!(&a[12..16], b"same");
}

#[test]
fn compressed_total_never_exceeds_total() {
    let mut s = service();
    s.store_data("a", &vec![1u8; 3000], "pw", true, 0).unwrap();
    s.store_data("b", &noise(500, 4), "pw", true, 0).unwrap();
    let st = s.get_usage_stats(0, 0).unwrap();
    assert_eq!(st.total_size, 3500);
    assert!(st.total_compressed_size < st.total_size);
}
