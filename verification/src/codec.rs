//! The two operations on streams: a container to bytes, and bytes to a
//! container. Both are pure. Each either succeeds as a whole or gives
//! nothing.

use crate::decode::decode;
use crate::cuts::lemma_document_cut;
use crate::document::{lemma_document_complete, reads_as};
use crate::encode::encode;
use crate::envelope::{compress, decompress, zstd_content, zstd_stream};
use crate::model::{ContainerValue, Molehill};
use crate::wire::container_wire;
use vstd::prelude::*;

verus! {

/// The effort level of the compressor: its highest. A stream is written once
/// and read many times, so size is worth more than the time to write.
pub const COMPRESSION_LEVEL: i32 = 22;

/// The container that a stream holds: what its content reads as. Nothing
/// where the stream cannot be decompressed or its content reads as no
/// container.
pub open spec fn stream_value(stream: Seq<u8>) -> Option<ContainerValue> {
    match zstd_content(stream) {
        Some(document) => reads_as(document),
        None => None,
    }
}

/// Reads a container from a stream.
///
/// The result is the container that the stream holds, and absent where it
/// holds none: where the bytes are not a stream that can be decompressed,
/// and where what comes out reads as no container. [`decode`] says which
/// forms of a document are read.
///
/// The indices inside the container are not validated, nor is the size of
/// an image buffer held against its dimensions.
pub fn from_bytes(bytes: Vec<u8>) -> (hill: Option<Molehill>)
    ensures
        match hill {
            Some(h) => stream_value(bytes@) == Some(h@),
            None => stream_value(bytes@) is None,
        },
        zstd_content(bytes@) is None ==> hill is None,
{
    match decompress(bytes.as_slice()) {
        Some(document) => decode(document.as_slice()),
        None => None,
    }
}

/// Writes a container to a stream.
///
/// A container with a sequence too long for the layout gives nothing. One
/// that fits gives what the compressor makes of its document at the highest
/// level: a stream, or nothing where the compressor fails. A stream that
/// comes out holds the document, and [`from_bytes`] reads it back unchanged;
/// cut short anywhere, it holds nothing.
pub fn to_bytes(hill: &Molehill) -> (stream: Option<Vec<u8>>)
    ensures
        !hill@.fits() ==> stream is None,
        hill@.fits() ==> match stream {
            Some(z) => zstd_stream(container_wire(hill@), COMPRESSION_LEVEL) == Some(z@),
            None => zstd_stream(container_wire(hill@), COMPRESSION_LEVEL) is None,
        },
        stream matches Some(z) ==> zstd_content(z@) == Some(container_wire(hill@))
            && stream_value(z@) == Some(hill@),
        stream matches Some(z) ==> forall|n: int|
            0 <= n < z@.len() ==> stream_value(#[trigger] z@.take(n)) is None,
{
    match encode(hill) {
        Some(document) => {
            proof {
                lemma_round_trip(hill@);
            }
            compress(document.as_slice(), COMPRESSION_LEVEL)
        },
        None => None,
    }
}

/// Reading inverts writing: the document of a container that fits is read
/// as that container, with every sequence in its order and every optional
/// value present or absent as it was.
pub proof fn lemma_round_trip(c: ContainerValue)
    requires
        c.fits(),
    ensures
        reads_as(container_wire(c)) == Some(c),
{
    lemma_document_complete(c);
}

/// Reading inverts writing through the envelope too: a stream whose content
/// is the document of a container holds that container.
pub proof fn lemma_stream_round_trip(c: ContainerValue, stream: Seq<u8>)
    requires
        c.fits(),
        zstd_content(stream) == Some(container_wire(c)),
    ensures
        stream_value(stream) == Some(c),
{
    lemma_round_trip(c);
}

/// Whether an index is valid makes no difference: a container is read back
/// as it was written whether or not it is well formed.
pub proof fn lemma_no_validation(c: ContainerValue)
    requires
        c.fits(),
        !c.well_formed(),
    ensures
        reads_as(container_wire(c)) == Some(c),
{
    lemma_round_trip(c);
}

/// Two containers with the same document are the same container.
pub proof fn lemma_one_document_one_container(a: ContainerValue, b: ContainerValue)
    requires
        a.fits(),
        b.fits(),
        container_wire(a) == container_wire(b),
    ensures
        a == b,
{
    lemma_round_trip(a);
    lemma_round_trip(b);
}

/// Bytes that cannot be decompressed hold no container.
pub proof fn lemma_garbage_rejected(stream: Seq<u8>)
    requires
        zstd_content(stream) is None,
    ensures
        stream_value(stream) is None,
{
}

/// A document cut short reads as nothing.
pub proof fn lemma_truncated_document_rejected(c: ContainerValue, len: int)
    requires
        c.fits(),
        0 <= len < container_wire(c).len(),
    ensures
        reads_as(container_wire(c).take(len)) is None,
{
    lemma_document_cut(c, len);
}

/// Bytes whose content is only the beginning of a document hold no
/// container.
pub proof fn lemma_partial_content_rejected(c: ContainerValue, stream: Seq<u8>)
    requires
        c.fits(),
        zstd_content(stream) matches Some(content) && content.len() < container_wire(c).len()
            && content == container_wire(c).take(content.len() as int),
    ensures
        stream_value(stream) is None,
{
    let content = zstd_content(stream).unwrap();
    lemma_truncated_document_rejected(c, content.len() as int);
}

} // verus!
