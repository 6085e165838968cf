use vstd::prelude::*;

verus! {

/// The compression algorithm that a stored record went through.
#[derive(Clone, Copy, Debug, PartialEq, Eq, Structural)]
pub enum CompressionType {
    Gzip,
    Lz4,
}

/// Longest data whose length fits an LZ4 block's 32-bit size prefix.
pub const MAX_LZ4_INPUT: u64 = 0xFFFF_FFFF;

/// LZ4 block compression with the uncompressed length prepended.
pub uninterp spec fn lz4_block_of(data: Seq<u8>) -> Seq<u8>;

/// What LZ4 decompression of a size-prepended block yields, if it is one.
pub uninterp spec fn lz4_unblock_of(block: Seq<u8>) -> Option<Seq<u8>>;

/// Gzip compression at the default level.
pub uninterp spec fn gzip_of(data: Seq<u8>) -> Seq<u8>;

/// What gzip decompression of a byte sequence yields, if it is a gzip stream.
pub uninterp spec fn gzip_unzip_of(stream: Seq<u8>) -> Option<Seq<u8>>;

/// Relies on lz4_flex::compress_prepend_size: the LZ4 block of the input,
/// preceded by its length.
#[verifier::external_body]
fn lz4_compress(data: &[u8]) -> (r: Vec<u8>)
    ensures
        r@ == lz4_block_of(data@),
{
    lz4_flex::compress_prepend_size(data)
}

/// Relies on lz4_flex::decompress_size_prepended: it fails on input that is
/// not such a block, and inverts compress_prepend_size for data whose length
/// fits the block's 32-bit size prefix.
#[verifier::external_body]
fn lz4_decompress(block: &[u8]) -> (r: Option<Vec<u8>>)
    ensures
        r is Some == lz4_unblock_of(block@) is Some,
        r matches Some(v) ==> lz4_unblock_of(block@) == Some(v@),
        forall|d: Seq<u8>|
            d.len() <= MAX_LZ4_INPUT && #[trigger] lz4_block_of(d) == block@ ==> r.is_some()
                && r.unwrap()@ == d,
{
    lz4_flex::decompress_size_prepended(block).ok()
}

/// Relies on flate2::write::GzEncoder at the default level, written to a
/// `Vec`: the gzip stream of the input (a header without a time stamp).
/// Writing into a `Vec` cannot fail, and the deflate backend reports errors
/// only on misuse that GzEncoder never makes, so the result is always there.
#[verifier::external_body]
fn gzip_compress(data: &[u8]) -> (r: Option<Vec<u8>>)
    ensures
        r is Some,
        r matches Some(v) ==> v@ == gzip_of(data@),
{
    let mut encoder = flate2::write::GzEncoder::new(Vec::new(), flate2::Compression::default());
    std::io::Write::write_all(&mut encoder, data).ok()?;
    encoder.finish().ok()
}

/// Relies on flate2::read::GzDecoder read to the end: it inverts GzEncoder
/// and fails on input that is not a gzip stream.
#[verifier::external_body]
fn gzip_decompress(stream: &[u8]) -> (r: Option<Vec<u8>>)
    ensures
        r is Some == gzip_unzip_of(stream@) is Some,
        r matches Some(v) ==> gzip_unzip_of(stream@) == Some(v@),
        forall|d: Seq<u8>| #[trigger] gzip_of(d) == stream@ ==> r.is_some() && r.unwrap()@ == d,
{
    let mut decoder = flate2::read::GzDecoder::new(stream);
    let mut out = Vec::new();
    std::io::Read::read_to_end(&mut decoder, &mut out).ok()?;
    Some(out)
}

/// The bytes that `algorithm` turns `data` into.
pub open spec fn compressed_of(data: Seq<u8>, algorithm: CompressionType) -> Seq<u8> {
    match algorithm {
        CompressionType::Gzip => gzip_of(data),
        CompressionType::Lz4 => lz4_block_of(data),
    }
}

/// The bytes a record is kept as: `data` itself, or its compressed form.
pub open spec fn payload_of(data: Seq<u8>, compression: Option<CompressionType>) -> Seq<u8> {
    match compression {
        None => data,
        Some(a) => compressed_of(data, a),
    }
}

/// What a kept payload restores to under its compression tag, if anything.
pub open spec fn restored_of(payload: Seq<u8>, compression: Option<CompressionType>) -> Option<
    Seq<u8>,
> {
    match compression {
        None => Some(payload),
        Some(CompressionType::Lz4) => lz4_unblock_of(payload),
        Some(CompressionType::Gzip) => gzip_unzip_of(payload),
    }
}

/// The form a record is kept in: the LZ4 block when compression is asked for,
/// the data fits an LZ4 size prefix, and the block is strictly shorter than
/// the data; else the data untouched.
pub open spec fn stored_form_of(data: Seq<u8>, compress: bool) -> (Seq<u8>, Option<
    CompressionType,
>) {
    if compress && data.len() <= MAX_LZ4_INPUT && lz4_block_of(data).len() < data.len() {
        (lz4_block_of(data), Some(CompressionType::Lz4))
    } else {
        (data, None)
    }
}

/// Compresses `data` with `algorithm`.
pub fn compress_data(data: &[u8], algorithm: CompressionType) -> (r: Option<Vec<u8>>)
    ensures
        r is Some,
        r matches Some(v) ==> v@ == compressed_of(data@, algorithm),
{
    match algorithm {
        CompressionType::Gzip => gzip_compress(data),
        CompressionType::Lz4 => Some(lz4_compress(data)),
    }
}

/// Decompresses `data` that `algorithm` produced; `None` when it is not
/// valid input for that algorithm.
pub fn decompress_data(data: &[u8], algorithm: CompressionType) -> (r: Option<Vec<u8>>)
    ensures
        match r {
            Some(v) => restored_of(data@, Some(algorithm)) == Some(v@),
            None => restored_of(data@, Some(algorithm)) is None,
        },
        forall|d: Seq<u8>|
            #[trigger] compressed_of(d, algorithm) == data@ && (algorithm == CompressionType::Lz4
                ==> d.len() <= MAX_LZ4_INPUT) ==> r.is_some() && r.unwrap()@ == d,
{
    match algorithm {
        CompressionType::Gzip => gzip_decompress(data),
        CompressionType::Lz4 => lz4_decompress(data),
    }
}

/// Copies a byte slice into a new vector.
pub fn bytes_to_vec(data: &[u8]) -> (r: Vec<u8>)
    ensures
        r@ == data@,
{
    let mut out: Vec<u8> = Vec::with_capacity(data.len());
    let mut i: usize = 0;
    while i < data.len()
        invariant
            i <= data@.len(),
            out@ == data@.subrange(0, i as int),
        decreases data@.len() - i,
    {
        out.push(data[i]);
        i = i + 1;
    }
    assert(out@ =~= data@);
    out
}

/// Applies the storage compression policy: when `compress` is set and
/// `data` is at most `MAX_LZ4_INPUT` bytes, LZ4 is tried and kept only if
/// strictly smaller than `data`.
pub fn stored_form(data: &[u8], compress: bool) -> (r: (Vec<u8>, Option<CompressionType>))
    ensures
        (r.0@, r.1) == stored_form_of(data@, compress),
{
    if compress && data.len() as u64 <= MAX_LZ4_INPUT {
        let block = lz4_compress(data);
        if block.len() < data.len() {
            return (block, Some(CompressionType::Lz4));
        }
    }
    (bytes_to_vec(data), None)
}

} // verus!
