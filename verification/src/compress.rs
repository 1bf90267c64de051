//! Zstd compression of tar streams, size-adaptive and optionally chunked.

use crate::errors::StoreError;
use crate::performance::PerformanceConfig;
use vstd::prelude::*;
use vstd::slice::slice_subrange;
use std::io::Read;

verus! {

/// What the zstd stream decoder returns for `data`: the decompressed
/// bytes of every frame in sequence, or `None` when `data` is not a
/// well-formed sequence of frames.
pub uninterp spec fn zstd_decode_of(data: Seq<u8>) -> Option<Seq<u8>>;

/// Relies on `zstd::stream::encode_all`: compressing in-memory bytes at
/// a valid level into an in-memory buffer cannot fail, the result is one
/// zstd frame that decodes back to `data`, and the decoder processes
/// frames in sequence, so appending the frame to any decodable stream
/// appends `data` to that stream's decoded bytes.
#[verifier::external_body]
fn zstd_compress(data: &[u8], level: i32) -> (r: Result<Vec<u8>, StoreError>)
    requires
        1 <= level <= 22,
    ensures
        r is Ok,
        r matches Ok(c) ==> zstd_decode_of(c@) == Some(data@),
        r matches Ok(c) ==> forall|p: Seq<u8>, q: Seq<u8>|
            zstd_decode_of(p) == Some(q) ==> zstd_decode_of(p + c@) == Some(q + data@),
{
    zstd::stream::encode_all(data, level).map_err(|_| StoreError::Compression)
}

/// Relies on `zstd::stream::decode_all`: decoding is a function of the
/// bytes alone and fails exactly on byte streams that are no well-formed
/// frame sequence.
#[verifier::external_body]
fn zstd_decompress(data: &[u8]) -> (r: Result<Vec<u8>, StoreError>)
    ensures
        r matches Ok(d) ==> Some(d@) == zstd_decode_of(data@),
        r is Err ==> zstd_decode_of(data@) is None,
        r matches Err(e) ==> e == StoreError::Decompression,
{
    zstd::stream::decode_all(data).map_err(|_| StoreError::Decompression)
}

/// Relies on `zstd::stream::Decoder` and `std::io::Read::read_to_end`:
/// streaming decompression through a large buffer returns the same bytes
/// as `zstd::stream::decode_all`.
#[verifier::external_body]
fn zstd_decompress_streaming(data: &[u8]) -> (r: Result<Vec<u8>, StoreError>)
    ensures
        r matches Ok(d) ==> Some(d@) == zstd_decode_of(data@),
        r is Err ==> zstd_decode_of(data@) is None,
        r matches Err(e) ==> e == StoreError::Decompression,
{
    let decoder = zstd::stream::Decoder::with_buffer(data)
        .map_err(|_| StoreError::Decompression)?;
    let mut decompressed = Vec::new();
    let mut reader = std::io::BufReader::with_capacity(1048576, decoder);
    reader
        .read_to_end(&mut decompressed)
        .map_err(|_| StoreError::Decompression)?;
    Ok(decompressed)
}

/// Compress `data` in one piece at the size-adaptive level.
pub fn adaptive_compress(data: &[u8], config: &PerformanceConfig) -> (r: Result<
    Vec<u8>,
    StoreError,
>)
    requires
        config.valid(),
    ensures
        r is Ok,
        r matches Ok(c) ==> zstd_decode_of(c@) == Some(data@),
{
    let level = config.get_adaptive_compression_level(data.len());
    zstd_compress(data, level)
}

/// The chunk size used when `total_size` bytes are compressed in parallel
/// chunks: the configured optimum, at least `min_chunk_size`, and at most
/// half the input.
fn chunk_size_for(config: &PerformanceConfig, total_size: usize, min_chunk_size: usize) -> (r:
    usize)
    requires
        config.valid(),
        total_size > config.chunk_size,
    ensures
        0 < r <= total_size,
{
    let optimal = config.get_optimal_chunk_size(total_size);
    let floored = if optimal < min_chunk_size {
        min_chunk_size
    } else {
        optimal
    };
    let half = total_size / 2;
    // total_size exceeds the configured chunk size, which a valid
    // configuration keeps at 1 KiB or more, so half is positive.
    assert(half >= 512);
    if floored > half {
        half
    } else {
        floored
    }
}

/// Compress `data` as a sequence of independently compressed chunks,
/// concatenated.  Each chunk is one zstd frame, so the result still
/// decodes, in one pass, back to `data`.
pub fn compress_chunked(data: &[u8], config: &PerformanceConfig, min_chunk_size: usize) -> (r:
    Result<Vec<u8>, StoreError>)
    requires
        config.valid(),
        data@.len() > config.chunk_size,
    ensures
        r is Ok,
        r matches Ok(c) ==> zstd_decode_of(c@) == Some(data@),
{
    let chunk = chunk_size_for(config, data.len(), min_chunk_size);
    let mut out: Vec<u8> = Vec::new();
    let mut consumed: usize = 0;

    while consumed < data.len()
        invariant
            config.valid(),
            consumed <= data@.len(),
            chunk > 0,
            consumed == 0 ==> out@.len() == 0,
            consumed > 0 ==> zstd_decode_of(out@) == Some(data@.subrange(0, consumed as int)),
        decreases data@.len() - consumed,
    {
        let end = if data.len() - consumed < chunk {
            data.len()
        } else {
            consumed + chunk
        };
        let piece = slice_subrange(data, consumed, end);
        let level = config.get_adaptive_compression_level(piece.len());
        let frame = match zstd_compress(piece, level) {
            Ok(f) => f,
            Err(_) => {
                proof {
                    assert(false);
                }
                return Err(StoreError::Compression);
            },
        };

        if consumed == 0 {
            out = frame;
        } else {
            proof {
                assert(data@.subrange(0, consumed as int) + data@.subrange(
                    consumed as int,
                    end as int,
                ) =~= data@.subrange(0, end as int));
            }
            let mut tail = frame;
            out.append(&mut tail);
        }
        consumed = end;
    }

    proof {
        assert(data@.subrange(0, data@.len() as int) =~= data@);
    }
    Ok(out)
}

/// Compress a packaged byte stream: chunked when the configuration asks
/// for parallel processing of an input this large, otherwise in one
/// adaptive piece.
pub fn compress_payload(data: &[u8], config: &PerformanceConfig) -> (r: Result<
    Vec<u8>,
    StoreError,
>)
    requires
        config.valid(),
    ensures
        r is Ok,
        r matches Ok(c) ==> zstd_decode_of(c@) == Some(data@),
{
    if config.should_use_parallel(data.len()) {
        // One megabyte floor, matching the compression buffer size.
        compress_chunked(data, config, 1048576)
    } else {
        adaptive_compress(data, config)
    }
}

/// Decompress a `tar.zst` payload back to the tar stream, streaming
/// through a large buffer for payloads over 20 MB.
pub fn decompress_payload(data: &[u8]) -> (r: Result<Vec<u8>, StoreError>)
    ensures
        r matches Ok(d) ==> Some(d@) == zstd_decode_of(data@),
        r is Err ==> zstd_decode_of(data@) is None,
        r matches Err(e) ==> e == StoreError::Decompression,
{
    if data.len() > 20000000 {
        zstd_decompress_streaming(data)
    } else {
        zstd_decompress(data)
    }
}

} // verus!
