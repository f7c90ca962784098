//! The compression envelope: zstd, as the `zstd` crate does it.
//!
//! Nothing in here is proved. The two functions call the crate. Their
//! contracts give a name to what each call returns, and state what the crate
//! shows of the two together: that decompression gives back what was
//! compressed, and that it refuses a stream that was cut short.

use vstd::prelude::*;

verus! {

/// The data that `zstd::decode_all` gives for a stream, or nothing where it
/// reports an error: on bytes that are no zstd frame, on a damaged frame and
/// on one that ends too early.
pub uninterp spec fn zstd_content(stream: Seq<u8>) -> Option<Seq<u8>>;

/// What `zstd::encode_all` gives for `data` at the effort `level`: the
/// stream, or nothing where it reports an error. The compressor reads
/// nothing but the data and the level, so the same two give the same result.
pub uninterp spec fn zstd_stream(data: Seq<u8>, level: i32) -> Option<Seq<u8>>;

/// Calls `zstd::encode_all` on `data` with the given effort level.
///
/// The contract gives its result a name, [`zstd_stream`], and claims two
/// things more of a stream that comes out. `zstd::decode_all` turns it back
/// into `data`, which is what a compressor is for. And `zstd::decode_all`
/// reports an error on every proper beginning of it: the stream is a single
/// frame, since the compressor starts a second one only after a step that
/// asks for no more input, which no step does, and a stream that ends
/// inside a frame is an error to the decompressor, not partial data. The
/// contract says nothing of the bytes of the stream and it does not promise
/// success.
#[verifier::external_body]
pub(crate) fn compress(data: &[u8], level: i32) -> (stream: Option<Vec<u8>>)
    ensures
        match stream {
            Some(z) => zstd_stream(data@, level) == Some(z@),
            None => zstd_stream(data@, level) is None,
        },
        stream matches Some(z) ==> zstd_content(z@) == Some(data@),
        stream matches Some(z) ==> forall|n: int|
            0 <= n < z@.len() ==> zstd_content(#[trigger] z@.take(n)) is None,
{
    zstd::encode_all(data, level).ok()
}

/// Calls `zstd::decode_all` on `stream`.
///
/// The contract gives its result a name, [`zstd_content`]: the data on
/// success, nothing on any error.
#[verifier::external_body]
pub(crate) fn decompress(stream: &[u8]) -> (content: Option<Vec<u8>>)
    ensures
        match content {
            Some(data) => zstd_content(stream@) == Some(data@),
            None => zstd_content(stream@) is None,
        },
{
    zstd::decode_all(stream).ok()
}

} // verus!
