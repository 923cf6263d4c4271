//! The decisions of the signalling exchange: how long a request is, read
//! from its 4-byte prefix, and which of the server's media endpoints answers
//! a request.
use crate::buffer::be32_at;
use crate::StreamType;
use vstd::prelude::*;

verus! {

/// The kind of stream a signalling request asks for: the tag of its
/// `stream_type`, without the parameters that the tag carries.
#[derive(Debug, Clone, Copy, PartialEq, Eq)]
pub enum RequestedStream {
    Video,
    Audio,
    BenchmarkAudio,
    BenchmarkVideo,
}

/// The endpoint kind that answers a request for `kind`: audio requests get
/// the audio endpoint, video requests the video endpoint, and the benchmark
/// kinds none.
pub open spec fn answering_stream(kind: RequestedStream) -> Option<StreamType> {
    match kind {
        RequestedStream::Audio => Some(StreamType::Audio),
        RequestedStream::Video => Some(StreamType::Video),
        _ => None,
    }
}

/// Which endpoint answers a request for `kind`; `None` for the benchmark
/// kinds, which no endpoint of the signalling server serves.
pub fn stream_for_request(kind: RequestedStream) -> (stream: Option<StreamType>)
    ensures
        stream == answering_stream(kind),
{
    match kind {
        RequestedStream::Audio => Some(StreamType::Audio),
        RequestedStream::Video => Some(StreamType::Video),
        _ => None,
    }
}

/// The number of request bytes that follow a 4-byte length prefix: the
/// prefix read as a big-endian unsigned number.
pub fn request_length(prefix: [u8; 4]) -> (len: usize)
    ensures
        len == be32_at(prefix@, 0),
{
    let len: u32 = (prefix[0] as u32) * 0x100_0000 + (prefix[1] as u32) * 0x1_0000
        + (prefix[2] as u32) * 0x100 + (prefix[3] as u32);
    len as usize
}

/// Audio requests, and only they, are answered by the audio endpoint; video
/// requests, and only they, by the video endpoint; the benchmark kinds by
/// none.
pub proof fn lemma_answering_stream(kind: RequestedStream)
    ensures
        answering_stream(kind) == Some(StreamType::Audio) <==> kind == RequestedStream::Audio,
        answering_stream(kind) == Some(StreamType::Video) <==> kind == RequestedStream::Video,
        answering_stream(kind) is None <==> (kind == RequestedStream::BenchmarkAudio || kind
            == RequestedStream::BenchmarkVideo),
{
}

/// The request length is the prefix read as a big-endian 32-bit number.
pub proof fn lemma_request_length_bytes(prefix: [u8; 4])
    ensures
        be32_at(prefix@, 0) == prefix[0] * 0x100_0000 + prefix[1] * 0x1_0000 + prefix[2]
            * 0x100 + prefix[3],
        be32_at(prefix@, 0) <= u32::MAX,
{
}

} // verus!
