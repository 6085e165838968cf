use vstd::prelude::*;

verus! {

/// Settings of the enclave that hosts the storage engine and its sibling
/// services.
pub struct EncaveConfig {
    pub mode: String,
    pub log_level: String,
    pub sgx_simulation_mode: bool,
    pub max_threads: usize,
    /// Root directory of the storage engine.
    pub storage_path: String,
    pub network_timeout_seconds: u64,
    pub crypto_algorithms: Vec<String>,
    pub enable_ai: bool,
    pub enable_oracle: bool,
}

/// Why a configuration was refused or a setting could not be read.
#[derive(Clone, Copy, Debug, PartialEq, Eq, Structural)]
pub enum ConfigError {
    /// `max_threads` is zero.
    NoThreads,
    /// `network_timeout_seconds` is zero.
    NoNetworkTimeout,
    /// The numeric setting asked for does not exist.
    UnknownKey,
}

/// Numeric setting: the most computation jobs run at once.
pub const KEY_MAX_CONCURRENT_JOBS: &'static str = "computation.max_concurrent_jobs";

/// Numeric setting: the largest model, in MiB.
pub const KEY_MAX_MODEL_SIZE_MB: &'static str = "ai.max_model_size_mb";

/// Numeric setting: the largest training set, in MiB.
pub const KEY_MAX_TRAINING_DATA_MB: &'static str = "ai.max_training_data_mb";

pub const DEFAULT_MAX_MODEL_SIZE_MB: usize = 1024;

pub const DEFAULT_MAX_TRAINING_DATA_MB: usize = 512;

impl Default for EncaveConfig {
    fn default() -> (r: EncaveConfig)
        ensures
            r.mode@ == "production"@,
            r.log_level@ == "info"@,
            !r.sgx_simulation_mode,
            r.max_threads == 16,
            r.storage_path@ == "/secure"@,
            r.network_timeout_seconds == 30,
            r.crypto_algorithms@.len() == 3,
            r.crypto_algorithms@[0]@ == "aes-256-gcm"@,
            r.crypto_algorithms@[1]@ == "secp256k1"@,
            r.crypto_algorithms@[2]@ == "ed25519"@,
            r.enable_ai,
            r.enable_oracle,
    {
        let mut algorithms: Vec<String> = Vec::new();
        algorithms.push("aes-256-gcm".to_owned());
        algorithms.push("secp256k1".to_owned());
        algorithms.push("ed25519".to_owned());
        EncaveConfig {
            mode: "production".to_owned(),
            log_level: "info".to_owned(),
            sgx_simulation_mode: false,
            max_threads: 16,
            storage_path: "/secure".to_owned(),
            network_timeout_seconds: 30,
            crypto_algorithms: algorithms,
            enable_ai: true,
            enable_oracle: true,
        }
    }
}

/// Whether two texts are equal.
fn same_text(a: &str, b: &str) -> (r: bool)
    ensures
        r == (a@ == b@),
{
    a.to_owned() == b.to_owned()
}

impl EncaveConfig {
    /// Takes every setting from `other`.
    pub fn merge(&mut self, other: EncaveConfig)
        ensures
            *final(self) == other,
    {
        self.mode = other.mode;
        self.log_level = other.log_level;
        self.sgx_simulation_mode = other.sgx_simulation_mode;
        self.max_threads = other.max_threads;
        self.storage_path = other.storage_path;
        self.network_timeout_seconds = other.network_timeout_seconds;
        self.crypto_algorithms = other.crypto_algorithms;
        self.enable_ai = other.enable_ai;
        self.enable_oracle = other.enable_oracle;
    }

    /// Refuses zero threads, then a zero network timeout.
    pub fn validate(&self) -> (r: Result<(), ConfigError>)
        ensures
            self.max_threads == 0 ==> r == Err::<(), ConfigError>(ConfigError::NoThreads),
            self.max_threads != 0 && self.network_timeout_seconds == 0 ==> r == Err::<
                (),
                ConfigError,
            >(ConfigError::NoNetworkTimeout),
            self.max_threads != 0 && self.network_timeout_seconds != 0 ==> r is Ok,
    {
        if self.max_threads == 0 {
            return Err(ConfigError::NoThreads);
        }
        if self.network_timeout_seconds == 0 {
            return Err(ConfigError::NoNetworkTimeout);
        }
        Ok(())
    }

    /// A numeric setting by name: the thread count for the concurrent-job
    /// limit, and fixed defaults for the two AI limits.
    pub fn get_number(&self, key: &str) -> (r: Result<usize, ConfigError>)
        ensures
            key@ == KEY_MAX_CONCURRENT_JOBS@ ==> r == Ok::<usize, ConfigError>(self.max_threads),
            key@ == KEY_MAX_MODEL_SIZE_MB@ ==> r == Ok::<usize, ConfigError>(
                DEFAULT_MAX_MODEL_SIZE_MB,
            ),
            key@ == KEY_MAX_TRAINING_DATA_MB@ ==> r == Ok::<usize, ConfigError>(
                DEFAULT_MAX_TRAINING_DATA_MB,
            ),
            key@ != KEY_MAX_CONCURRENT_JOBS@ && key@ != KEY_MAX_MODEL_SIZE_MB@ && key@
                != KEY_MAX_TRAINING_DATA_MB@ ==> r == Err::<usize, ConfigError>(
                ConfigError::UnknownKey,
            ),
    {
        proof {
            reveal_strlit("computation.max_concurrent_jobs");
            reveal_strlit("ai.max_model_size_mb");
            reveal_strlit("ai.max_training_data_mb");
            assert(KEY_MAX_CONCURRENT_JOBS@[0] != KEY_MAX_MODEL_SIZE_MB@[0]);
            assert(KEY_MAX_CONCURRENT_JOBS@[0] != KEY_MAX_TRAINING_DATA_MB@[0]);
            assert(KEY_MAX_MODEL_SIZE_MB@[7] != KEY_MAX_TRAINING_DATA_MB@[7]);
        }
        if same_text(key, KEY_MAX_CONCURRENT_JOBS) {
            Ok(self.max_threads)
        } else if same_text(key, KEY_MAX_MODEL_SIZE_MB) {
            Ok(DEFAULT_MAX_MODEL_SIZE_MB)
        } else if same_text(key, KEY_MAX_TRAINING_DATA_MB) {
            Ok(DEFAULT_MAX_TRAINING_DATA_MB)
        } else {
            Err(ConfigError::UnknownKey)
        }
    }
}

} // verus!
