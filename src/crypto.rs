use vstd::prelude::*;

verus! {

/// Algorithms the enclave's key service offers.
#[derive(Clone, Copy, Debug, PartialEq, Eq, Structural)]
pub enum CryptoAlgorithm {
    Aes256Gcm,
    ChaCha20Poly1305,
    Secp256k1,
    Ed25519,
    Sha256,
    Sha3_256,
}

/// What the key service records about a key.
pub struct KeyMetadata {
    pub key_id: String,
    pub key_type: CryptoAlgorithm,
    pub usage: Vec<String>,
    pub exportable: bool,
    pub created_at: u64,
    pub description: String,
    pub public_key: Option<Vec<u8>>,
}

} // verus!
