use enclave_storage::computation::{ComputationJob, ComputationService, JobError, JobStatus, SecurityLevel};
use enclave_storage::config::{ConfigError, EncaveConfig};

fn job(id: &str, status: JobStatus) -> ComputationJob {
    ComputationJob {
        id: id.to_string(),
        code: "1+1".to_string(),
        parameters: "{}".to_string(),
        created_at: 5,
        status,
        result: None,
        error: None,
        execution_time_ms: None,
        memory_used_bytes: None,
        security_level: SecurityLevel::Medium,
    }
}

#[test]
fn config_defaults_and_numbers() {
    let c = EncaveConfig::default();
    assert_eq!(c.mode, "production");
    assert_eq!(c.storage_path, "/secure");
    assert_eq!(c.max_threads, 16);
    assert_eq!(c.crypto_algorithms, vec!["aes-256-gcm", "secp256k1", "ed25519"]);
    assert_eq!(c.validate(), Ok(()));
    assert_eq!(c.get_number("computation.max_concurrent_jobs"), Ok(16));
    assert_eq!(c.get_number("ai.max_model_size_mb"), Ok(1024));
    assert_eq!(c.get_number("ai.max_training_data_mb"), Ok(512));
    assert_eq!(c.get_number("other"), Err(ConfigError::UnknownKey));
}

#[test]
fn config_validation_and_merge() {
    let mut c = EncaveConfig::default();
    let mut other = EncaveConfig::default();
    other.max_threads = 0;
    other.storage_path = "/data".to_string();
    c.merge(other);
    assert_eq!(c.storage_path, "/data");
    assert_eq!(c.validate(), Err(ConfigError::NoThreads));
    c.max_threads = 2;
    c.network_timeout_seconds = 0;
    assert_eq!(c.validate(), Err(ConfigError::NoNetworkTimeout));
}

#[test]
fn cancel_jobs() {
    let mut svc = ComputationService::new(&EncaveConfig::default());
    assert_eq!(svc.max_concurrent_jobs(), 16);
    svc.record_job(job("a", JobStatus::Running)).unwrap();
    svc.record_job(job("b", JobStatus::Completed)).unwrap();
    assert_eq!(svc.record_job(job("a", JobStatus::Pending)), Err(JobError::DuplicateId));
    assert_eq!(svc.cancel_job("a").unwrap(), "{\"status\": \"cancelled\", \"job_id\": \"a\"}");
    assert_eq!(svc.cancel_job("a"), Err(JobError::NotCancellable(JobStatus::Failed)));
    assert_eq!(svc.cancel_job("b"), Err(JobError::NotCancellable(JobStatus::Completed)));
    assert_eq!(svc.cancel_job("zzz"), Err(JobError::NotFound));
}
