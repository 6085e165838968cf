//! A local key/value storage engine for opaque byte blobs: records are
//! optionally compressed, sealed with AES-256-GCM under a key derived from a
//! per-directory master key and a caller secret, and catalogued in an index.
//! The library makes every decision; reading and writing files is left to the
//! caller, which hands the library plain values.
//!
//! Beside the engine stand the enclave settings it is configured from, and
//! the records kept by the sibling services of the same enclave (computation
//! jobs, keys, accounts).

/// Content hashes and data file names.
pub mod digest;
/// Compression of stored payloads.
pub mod codec;
/// Key derivation and authenticated encryption of records.
pub mod aead;
/// The catalogue of stored keys.
pub mod index;
/// Store, retrieve and delete.
pub mod service;
/// Usage statistics and the maintenance pass.
pub mod maintenance;
/// Analysis of the storage directory and of the volume.
pub mod analytics;
/// Enclave settings.
pub mod config;
/// Computation jobs.
pub mod computation;
/// Key-service records.
pub mod crypto;
/// Abstract-account records.
pub mod account;
