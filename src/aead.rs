use vstd::prelude::*;
use vstd::utf8::{encode_utf8, is_ascii_chars_encode_utf8};
use crate::codec::bytes_to_vec;
use crate::digest::{hex_encode, hex_lower, lemma_hex_lower_utf8_len};

verus! {

/// Length of the master key and of every derived record key, in bytes.
pub const KEY_LEN: usize = 32;

/// Length of the random nonce that starts every sealed blob.
pub const NONCE_LEN: usize = 12;

/// Length of the authentication tag that ends every sealed blob.
pub const TAG_LEN: usize = 16;

/// PBKDF2 iteration count for record keys.
pub const PBKDF2_ITERATIONS: u32 = 100000;

/// Fixed salt for record-key derivation.
pub const KEY_DERIVATION_SALT: &'static str = "neo-service-layer-storage";

/// Longest caller secret accepted, in UTF-8 bytes.
pub const MAX_SECRET_LEN: u64 = 0x1000_0000_0000_0000;

/// Longest plaintext AES-256-GCM seals in one call.
pub const MAX_SEAL_LEN: u64 = 0xF_FFFF_FFE0;

/// PBKDF2-HMAC-SHA256 output of one 32-byte block.
pub uninterp spec fn pbkdf2_sha256_of(iterations: u32, salt: Seq<u8>, password: Seq<u8>) -> Seq<u8>;

/// AES-256-GCM ciphertext with its tag appended, without associated data.
pub uninterp spec fn aes_gcm_seal_of(key: Seq<u8>, nonce: Seq<u8>, plaintext: Seq<u8>) -> Seq<u8>;

/// AES-256-GCM opening, without associated data: the plaintext when the tag
/// verifies.
pub uninterp spec fn aes_gcm_open_of(key: Seq<u8>, nonce: Seq<u8>, sealed: Seq<u8>) -> Option<
    Seq<u8>,
>;

/// Relies on ring::rand::SystemRandom::fill: on success the whole buffer of
/// `n` bytes was filled from the system's secure generator.
#[verifier::external_body]
fn random_bytes(n: usize) -> (r: Option<Vec<u8>>)
    ensures
        r matches Some(v) ==> v@.len() == n,
{
    let mut buf = vec![0u8; n];
    ring::rand::SecureRandom::fill(&ring::rand::SystemRandom::new(), &mut buf).ok()?;
    Some(buf)
}

/// Relies on ring::pbkdf2::derive with PBKDF2_HMAC_SHA256 into a 32-byte
/// buffer; it panics only when salt or password exceed what SHA-256 accepts,
/// which `requires` leaves out.
#[verifier::external_body]
fn pbkdf2_hmac_sha256(iterations: u32, salt: &[u8], password: &[u8]) -> (r: Vec<u8>)
    requires
        iterations > 0,
        salt@.len() < 0x1000_0000_0000_0000,
        password@.len() < 0x2000_0000_0000_0000,
    ensures
        r@ == pbkdf2_sha256_of(iterations, salt@, password@),
        r@.len() == 32,
{
    let mut out = vec![0u8; 32];
    let rounds = std::num::NonZeroU32::new(iterations).unwrap();
    ring::pbkdf2::derive(ring::pbkdf2::PBKDF2_HMAC_SHA256, rounds, salt, password, &mut out);
    out
}

/// Relies on ring::aead::LessSafeKey::seal_in_place_append_tag with
/// AES_256_GCM and empty associated data: the ciphertext followed by a
/// 16-byte tag. ring fails exactly for a key that is not 32 bytes
/// (UnboundKey::new) or for input over its AES-GCM limit (gcm::Context::new).
#[verifier::external_body]
fn aes_gcm_seal(key: &[u8], nonce: &[u8], plaintext: &[u8]) -> (r: Option<Vec<u8>>)
    requires
        nonce@.len() == 12,
    ensures
        r matches Some(c) ==> c@ == aes_gcm_seal_of(key@, nonce@, plaintext@) && c@.len()
            == plaintext@.len() + 16,
        r.is_some() == (key@.len() == 32 && plaintext@.len() <= MAX_SEAL_LEN),
{
    let unbound = ring::aead::UnboundKey::new(&ring::aead::AES_256_GCM, key).ok()?;
    let n = ring::aead::Nonce::try_assume_unique_for_key(nonce).ok()?;
    let mut in_out = plaintext.to_vec();
    ring::aead::LessSafeKey::new(unbound).seal_in_place_append_tag(
        n,
        ring::aead::Aad::empty(),
        &mut in_out,
    ).ok()?;
    Some(in_out)
}

/// Relies on ring::aead::LessSafeKey::open_in_place with AES_256_GCM and
/// empty associated data: the plaintext only when the trailing tag verifies;
/// under a 32-byte key it inverts seal_in_place_append_tag on the inputs that
/// sealing accepts.
#[verifier::external_body]
fn aes_gcm_open(key: &[u8], nonce: &[u8], sealed: &[u8]) -> (r: Option<Vec<u8>>)
    requires
        nonce@.len() == 12,
    ensures
        r.is_some() == aes_gcm_open_of(key@, nonce@, sealed@).is_some(),
        r matches Some(p) ==> aes_gcm_open_of(key@, nonce@, sealed@) == Some(p@),
        key@.len() == 32 ==> forall|p: Seq<u8>|
            p.len() <= MAX_SEAL_LEN && #[trigger] aes_gcm_seal_of(key@, nonce@, p) == sealed@
                ==> r.is_some() && r.unwrap()@ == p,
{
    let unbound = ring::aead::UnboundKey::new(&ring::aead::AES_256_GCM, key).ok()?;
    let n = ring::aead::Nonce::try_assume_unique_for_key(nonce).ok()?;
    let mut in_out = sealed.to_vec();
    let plain = ring::aead::LessSafeKey::new(unbound).open_in_place(
        n,
        ring::aead::Aad::empty(),
        &mut in_out,
    ).ok()?;
    Some(plain.to_vec())
}

/// The record key for a caller secret: PBKDF2 over the master key's hex text
/// followed by the secret.
pub open spec fn record_key_of(master: Seq<u8>, secret: Seq<char>) -> Seq<u8> {
    pbkdf2_sha256_of(
        PBKDF2_ITERATIONS,
        encode_utf8(KEY_DERIVATION_SALT@),
        encode_utf8(hex_lower(master)) + encode_utf8(secret),
    )
}

/// A sealed blob: the nonce, then the ciphertext and its tag.
pub open spec fn sealed_blob_of(key: Seq<u8>, nonce: Seq<u8>, payload: Seq<u8>) -> Seq<u8> {
    nonce + aes_gcm_seal_of(key, nonce, payload)
}

/// What a blob opens to under `key`: nothing when it is shorter than a nonce
/// and a tag, else the AES-GCM opening of its tail under its first 12 bytes.
pub open spec fn opened_blob_of(key: Seq<u8>, blob: Seq<u8>) -> Option<Seq<u8>> {
    if blob.len() < NONCE_LEN + TAG_LEN {
        None
    } else {
        aes_gcm_open_of(key, blob.subrange(0, NONCE_LEN as int), blob.subrange(NONCE_LEN as int, blob.len() as int))
    }
}

/// Appends the bytes of `src` to `dst`.
pub fn append_bytes(dst: &mut Vec<u8>, src: &[u8])
    ensures
        final(dst)@ == old(dst)@ + src@,
{
    let ghost start = dst@;
    let mut i: usize = 0;
    while i < src.len()
        invariant
            i <= src@.len(),
            dst@ == start + src@.subrange(0, i as int),
        decreases src@.len() - i,
    {
        dst.push(src[i]);
        i = i + 1;
        assert(dst@ =~= start + src@.subrange(0, i as int));
    }
    assert(src@.subrange(0, i as int) =~= src@);
}

/// The record key for `secret`, when the secret is short enough to derive
/// one.
pub open spec fn record_key_for(master: Seq<u8>, secret: Seq<char>) -> Option<Seq<u8>> {
    if encode_utf8(secret).len() <= MAX_SECRET_LEN {
        Some(record_key_of(master, secret))
    } else {
        None
    }
}

/// Derives the 32-byte key that seals a caller's records; `None` for a
/// secret longer than `MAX_SECRET_LEN` bytes.
pub fn derive_record_key(master: &[u8], secret: &str) -> (r: Option<Vec<u8>>)
    requires
        master@.len() == KEY_LEN,
    ensures
        r is Some == record_key_for(master@, secret@) is Some,
        r matches Some(k) ==> record_key_for(master@, secret@) == Some(k@) && k@.len() == KEY_LEN,
{
    let secret_bytes = secret.as_bytes();
    if secret_bytes.len() as u64 > MAX_SECRET_LEN {
        return None;
    }
    let hex = hex_encode(master);
    let mut password = bytes_to_vec(hex.as_str().as_bytes());
    proof {
        lemma_hex_lower_utf8_len(master@);
    }
    append_bytes(&mut password, secret_bytes);
    let salt = KEY_DERIVATION_SALT.as_bytes();
    proof {
        reveal_strlit("neo-service-layer-storage");
        is_ascii_chars_encode_utf8(KEY_DERIVATION_SALT@);
    }
    Some(pbkdf2_hmac_sha256(PBKDF2_ITERATIONS, salt, password.as_slice()))
}

/// Seals `payload` under `key` and `nonce`, the nonce first. `None`
/// exactly when the payload is over the AES-GCM limit.
pub fn seal_with_nonce(key: &[u8], nonce: Vec<u8>, payload: &[u8]) -> (r: Option<Vec<u8>>)
    requires
        key@.len() == KEY_LEN,
        nonce@.len() == NONCE_LEN,
    ensures
        r matches Some(b) ==> b@ == sealed_blob_of(key@, nonce@, payload@),
        r matches Some(b) ==> b@.len() == payload@.len() + NONCE_LEN + TAG_LEN,
        r is Some <==> payload@.len() <= MAX_SEAL_LEN,
{
    let sealed = match aes_gcm_seal(key, nonce.as_slice(), payload) {
        Some(c) => c,
        None => return None,
    };
    let mut blob = nonce;
    append_bytes(&mut blob, sealed.as_slice());
    Some(blob)
}

/// Seals `payload` under `key` with a fresh random nonce. `None` when the
/// system generator fails, or when the payload is over the AES-GCM limit.
pub fn seal_blob(key: &[u8], payload: &[u8]) -> (r: Option<Vec<u8>>)
    requires
        key@.len() == KEY_LEN,
    ensures
        r matches Some(b) ==> exists|n: Seq<u8>|
            n.len() == NONCE_LEN && b@ == #[trigger] sealed_blob_of(key@, n, payload@),
        r matches Some(b) ==> b@.len() == payload@.len() + NONCE_LEN + TAG_LEN,
        r is Some ==> payload@.len() <= MAX_SEAL_LEN,
{
    match random_bytes(NONCE_LEN) {
        Some(nonce) => {
            let ghost n = nonce@;
            let r = seal_with_nonce(key, nonce, payload);
            proof {
                if r is Some {
                    assert(r.unwrap()@ == sealed_blob_of(key@, n, payload@));
                }
            }
            r
        },
        None => None,
    }
}

/// Opens a sealed blob under `key`; `None` when it is too short or its tag
/// does not verify.
pub fn open_blob(key: &[u8], blob: &[u8]) -> (r: Option<Vec<u8>>)
    ensures
        r.is_some() == opened_blob_of(key@, blob@).is_some(),
        r matches Some(p) ==> opened_blob_of(key@, blob@) == Some(p@),
        key@.len() == KEY_LEN && blob@.len() >= NONCE_LEN + TAG_LEN ==> forall|
            n: Seq<u8>,
            p: Seq<u8>,
        |
            n.len() == NONCE_LEN && p.len() <= MAX_SEAL_LEN && #[trigger] sealed_blob_of(key@, n, p)
                == blob@ ==> r.is_some() && r.unwrap()@ == p,
{
    if blob.len() < NONCE_LEN + TAG_LEN {
        return None;
    }
    let nonce = &blob[0..NONCE_LEN];
    let sealed = &blob[NONCE_LEN..blob.len()];
    let r = aes_gcm_open(key, nonce, sealed);
    proof {
        assert forall|n: Seq<u8>, p: Seq<u8>|
            key@.len() == KEY_LEN && n.len() == NONCE_LEN && p.len() <= MAX_SEAL_LEN
                && #[trigger] sealed_blob_of(key@, n, p) == blob@ implies r.is_some() && r.unwrap()@
                == p by {
            assert(n =~= nonce@);
            assert(aes_gcm_seal_of(key@, n, p) =~= sealed@);
        }
    }
    r
}

/// A master key read from disk is kept when it is exactly 32 bytes; anything
/// else is replaced by a fresh random key, which the caller then writes back.
pub enum MasterKeySource {
    Existing(Vec<u8>),
    Generated(Vec<u8>),
}

impl MasterKeySource {
    pub open spec fn key(&self) -> Seq<u8> {
        match self {
            MasterKeySource::Existing(k) => k@,
            MasterKeySource::Generated(k) => k@,
        }
    }
}

/// Whether the key file's contents can serve as the master key.
pub open spec fn is_usable_master_key(existing: Option<Vec<u8>>) -> bool {
    existing matches Some(k) && k@.len() == KEY_LEN
}

/// Settles the master key from the key file's contents (`None` when absent).
/// A 32-byte file is used as it is; otherwise a new key is generated (and
/// overwrites a key file of the wrong length). `None` when the system
/// generator fails.
pub fn obtain_master_key(existing: Option<Vec<u8>>) -> (r: Option<MasterKeySource>)
    ensures
        is_usable_master_key(existing) ==> (r matches Some(MasterKeySource::Existing(e))
            && e@ == existing.unwrap()@),
        !is_usable_master_key(existing) ==> (r is None || r.unwrap() is Generated),
        r matches Some(s) ==> s.key().len() == KEY_LEN,
{
    if let Some(k) = existing {
        if k.len() == KEY_LEN {
            return Some(MasterKeySource::Existing(k));
        }
    }
    match random_bytes(KEY_LEN) {
        Some(k) => Some(MasterKeySource::Generated(k)),
        None => None,
    }
}

} // verus!
