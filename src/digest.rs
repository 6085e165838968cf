use vstd::prelude::*;
use vstd::utf8::{encode_utf8, is_ascii_chars, is_ascii_chars_encode_utf8};

verus! {

/// One lowercase hexadecimal digit for a value below 16.
pub open spec fn hex_char(n: u8) -> char {
    if n < 10 {
        (n + 48) as char
    } else {
        (n + 87) as char
    }
}

/// Lowercase hexadecimal text of a byte sequence: two digits per byte,
/// high nibble first.
pub open spec fn hex_lower(b: Seq<u8>) -> Seq<char> {
    Seq::new(
        2 * b.len(),
        |i: int|
            if i % 2 == 0 {
                hex_char(b[i / 2] / 16)
            } else {
                hex_char(b[i / 2] % 16)
            },
    )
}

/// Hex text is ASCII, so its UTF-8 encoding has one byte per digit.
pub proof fn lemma_hex_lower_utf8_len(b: Seq<u8>)
    ensures
        is_ascii_chars(hex_lower(b)),
        encode_utf8(hex_lower(b)).len() == 2 * b.len(),
{
    assert forall|i: int| 0 <= i < hex_lower(b).len() implies '\0' <= #[trigger] hex_lower(b)[i]
        <= '\u{7f}' by {
        let n = if i % 2 == 0 { b[i / 2] / 16 } else { b[i / 2] % 16 };
        assert(hex_lower(b)[i] == hex_char(n));
    }
    is_ascii_chars_encode_utf8(hex_lower(b));
}

/// The SHA-256 digest of a byte sequence.
pub uninterp spec fn sha256_of(data: Seq<u8>) -> Seq<u8>;

/// Relies on sha2::Sha256::digest: the 32-byte SHA-256 digest of the input.
#[verifier::external_body]
fn sha256_digest(data: &[u8]) -> (r: Vec<u8>)
    ensures
        r@ == sha256_of(data@),
        r@.len() == 32,
{
    <sha2::Sha256 as sha2::Digest>::digest(data).to_vec()
}

/// Relies on hex::encode: two lowercase digits for each byte, high nibble first.
#[verifier::external_body]
pub(crate) fn hex_encode(data: &[u8]) -> (r: String)
    ensures
        r@ == hex_lower(data@),
{
    hex::encode(data)
}

/// The content hash of a record: lowercase hex of SHA-256 of its plaintext.
pub open spec fn content_hash_of(data: Seq<u8>) -> Seq<char> {
    hex_lower(sha256_of(data))
}

/// The name of the file that holds the record stored under `key`.
pub open spec fn data_file_name_of(key: Seq<char>) -> Seq<char> {
    "data_"@ + hex_lower(sha256_of(encode_utf8(key))) + ".dat"@
}

/// Lowercase hex of the SHA-256 digest of `data`.
pub fn content_hash(data: &[u8]) -> (r: String)
    ensures
        r@ == content_hash_of(data@),
{
    let d = sha256_digest(data);
    hex_encode(d.as_slice())
}

/// The file name under which the record for `key` is kept: `data_`, the hex
/// SHA-256 of the key's UTF-8 bytes, then `.dat`.
pub fn data_file_name(key: &str) -> (r: String)
    ensures
        r@ == data_file_name_of(key@),
{
    let d = sha256_digest(key.as_bytes());
    let h = hex_encode(d.as_slice());
    let mut name = "data_".to_owned();
    name.append(h.as_str());
    name.append(".dat");
    name
}

/// Names of the form `data_*.dat`, judged on their UTF-8 bytes: at least
/// nine bytes, starting with `data_` and ending with `.dat`.
pub open spec fn is_data_file_name_of(name: Seq<char>) -> bool {
    let b = encode_utf8(name);
    &&& b.len() >= 9
    &&& b.subrange(0, 5) == seq![100u8, 97u8, 116u8, 97u8, 95u8]
    &&& b.subrange(b.len() - 4, b.len() as int) == seq![46u8, 100u8, 97u8, 116u8]
}

/// Whether `name` has the form of a data file name, `data_*.dat`.
pub fn is_data_file_name(name: &str) -> (r: bool)
    ensures
        r == is_data_file_name_of(name@),
{
    let b = name.as_bytes();
    let n = b.len();
    if n < 9 {
        return false;
    }
    let r = b[0] == 100 && b[1] == 97 && b[2] == 116 && b[3] == 97 && b[4] == 95 && b[n - 4] == 46
        && b[n - 3] == 100 && b[n - 2] == 97 && b[n - 1] == 116;
    proof {
        let s = encode_utf8(name@);
        assert(b@ == s);
        if r {
            assert(s.subrange(0, 5) =~= seq![100u8, 97u8, 116u8, 97u8, 95u8]);
            assert(s.subrange(s.len() - 4, s.len() as int) =~= seq![46u8, 100u8, 97u8, 116u8]);
        } else if is_data_file_name_of(name@) {
            assert(s.subrange(0, 5)[0] == s[0]);
            assert(s.subrange(0, 5)[1] == s[1]);
            assert(s.subrange(0, 5)[2] == s[2]);
            assert(s.subrange(0, 5)[3] == s[3]);
            assert(s.subrange(0, 5)[4] == s[4]);
            let t = s.subrange(s.len() - 4, s.len() as int);
            assert(t[0] == s[s.len() - 4]);
            assert(t[1] == s[s.len() - 3]);
            assert(t[2] == s[s.len() - 2]);
            assert(t[3] == s[s.len() - 1]);
        }
    }
    r
}

} // verus!
