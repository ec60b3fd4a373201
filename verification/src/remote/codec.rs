//! Length-delimited framing of the packets on the TCP stream.
//!
//! Each frame is a four-byte big-endian length followed by that many payload
//! bytes; the payload is one CBOR-encoded packet. The framing itself is done
//! by `tokio_util`'s `LengthDelimitedCodec` with its default settings.
use vstd::prelude::*;
use tokio_util::bytes::BytesMut;
use tokio_util::codec::{Decoder, Encoder, LengthDelimitedCodec};

verus! {

/// The largest payload that a frame may carry: `LengthDelimitedCodec`'s default.
pub const MAX_FRAME_LENGTH: usize = 8388608;

/// The four big-endian bytes of `n`.
pub open spec fn be32_bytes(n: nat) -> Seq<u8> {
    seq![
        (n / 16777216 % 256) as u8,
        (n / 65536 % 256) as u8,
        (n / 256 % 256) as u8,
        (n % 256) as u8,
    ]
}

/// The number that the first four bytes of `buf` hold, big-endian.
pub open spec fn length_field(buf: Seq<u8>) -> int {
    (buf[0] as int) * 16777216 + (buf[1] as int) * 65536 + (buf[2] as int) * 256 + (buf[3] as int)
}

/// The frame that carries `payload`: its length, then the payload.
pub open spec fn frame_of(payload: Seq<u8>) -> Seq<u8> {
    be32_bytes(payload.len()) + payload
}

/// Why a frame could not be written or read.
#[derive(Debug, Clone, Copy, PartialEq, Eq, Structural)]
pub enum CodecError {
    /// The payload, or the length announced by an incoming frame, is larger
    /// than `MAX_FRAME_LENGTH`.
    FrameTooLarge,
}

/// What splitting one frame off the front of a buffer gives.
enum FrameSplit {
    /// The buffer does not hold a whole frame yet.
    Incomplete,
    /// The buffer announces a frame larger than `MAX_FRAME_LENGTH`.
    TooLarge,
    /// The payload of the first frame, and the bytes after it.
    Frame(Vec<u8>, Vec<u8>),
}

/// Writes `payload` as one frame.
///
/// Trusted: calls `Encoder::encode` of a fresh `LengthDelimitedCodec`, which
/// (tokio-util 0.7.20, `length_delimited.rs`) refuses a payload longer than
/// its default maximum of 8 MiB and otherwise writes the length as a four-byte
/// big-endian field, then the payload.
#[verifier::external_body]
fn delimit(payload: &[u8]) -> (r: Option<Vec<u8>>)
    ensures
        r.is_some() == (payload@.len() <= MAX_FRAME_LENGTH),
        r.is_some() ==> r.unwrap()@ == frame_of(payload@),
{
    let mut codec = LengthDelimitedCodec::new();
    let mut dst = BytesMut::new();
    match codec.encode(tokio_util::bytes::Bytes::copy_from_slice(payload), &mut dst) {
        Ok(()) => Some(dst.to_vec()),
        Err(_) => None,
    }
}

/// Splits the first frame off `buf`.
///
/// Trusted: calls `Decoder::decode` of a fresh `LengthDelimitedCodec` on a
/// copy of `buf`, which (tokio-util 0.7.20, `length_delimited.rs`) returns
/// nothing while fewer than four bytes are present, fails when the big-endian
/// length field exceeds the default maximum of 8 MiB, returns nothing while
/// the payload is incomplete, and otherwise splits the payload off after the
/// four length bytes.
#[verifier::external_body]
fn split_frame(buf: &[u8]) -> (r: FrameSplit)
    ensures
        buf@.len() < 4 ==> r is Incomplete,
        buf@.len() >= 4 && length_field(buf@) > MAX_FRAME_LENGTH ==> r is TooLarge,
        buf@.len() >= 4 && length_field(buf@) <= MAX_FRAME_LENGTH && buf@.len() < 4 + length_field(
            buf@,
        ) ==> r is Incomplete,
        buf@.len() >= 4 && length_field(buf@) <= MAX_FRAME_LENGTH && buf@.len() >= 4
            + length_field(buf@) ==> r is Frame && r->Frame_0@ == buf@.subrange(
            4,
            4 + length_field(buf@),
        ) && r->Frame_1@ == buf@.skip(4 + length_field(buf@)),
{
    let mut src = BytesMut::from(buf);
    let mut codec = LengthDelimitedCodec::new();
    match codec.decode(&mut src) {
        Ok(Some(frame)) => FrameSplit::Frame(frame.to_vec(), src.to_vec()),
        Ok(None) => FrameSplit::Incomplete,
        Err(_) => FrameSplit::TooLarge,
    }
}

/// A serialization codec for framing TCP streams: it turns payloads into
/// length-delimited frames and cuts complete frames out of incoming bytes.
///
/// The payloads are CBOR-encoded packets; encoding them into bytes, and
/// back, is done by the caller. The codec keeps no state between calls: a
/// frame that is not complete yet stays in the caller's buffer.
#[derive(Debug)]
pub struct RemotePacketCodec;

impl RemotePacketCodec {
    /// Creates a fresh codec.
    pub fn new() -> Self {
        RemotePacketCodec
    }

    /// Appends the frame that carries `item` to `dst`.
    pub fn encode(&self, item: &[u8], dst: &mut Vec<u8>) -> (r: Result<(), CodecError>)
        ensures
            item@.len() <= MAX_FRAME_LENGTH ==> r is Ok && final(dst)@ == old(dst)@ + frame_of(
                item@,
            ),
            item@.len() > MAX_FRAME_LENGTH ==> r == Err::<(), CodecError>(CodecError::FrameTooLarge)
                && final(dst)@ == old(dst)@,
    {
        match delimit(item) {
            Some(frame) => {
                let mut i: usize = 0;
                while i < frame.len()
                    invariant
                        i <= frame.len(),
                        dst@ == old(dst)@ + frame@.take(i as int),
                    decreases frame.len() - i,
                {
                    dst.push(frame[i]);
                    assert(frame@.take(i + 1) =~= frame@.take(i as int).push(frame@[i as int]));
                    i = i + 1;
                }
                assert(frame@.take(frame.len() as int) =~= frame@);
                Ok(())
            },
            None => Err(CodecError::FrameTooLarge),
        }
    }

    /// Cuts the first complete frame out of `src` and returns its payload.
    ///
    /// Returns `None`, leaving `src` as it is, while `src` does not yet hold a
    /// whole frame; fails, leaving `src` as it is, when the frame announces a
    /// payload longer than `MAX_FRAME_LENGTH`.
    pub fn decode(&self, src: &mut Vec<u8>) -> (r: Result<Option<Vec<u8>>, CodecError>)
        ensures
            old(src)@.len() < 4 ==> r == Ok::<Option<Vec<u8>>, CodecError>(None) && final(src)@
                == old(src)@,
            old(src)@.len() >= 4 && length_field(old(src)@) > MAX_FRAME_LENGTH ==> r == Err::<
                Option<Vec<u8>>,
                CodecError,
            >(CodecError::FrameTooLarge) && final(src)@ == old(src)@,
            old(src)@.len() >= 4 && length_field(old(src)@) <= MAX_FRAME_LENGTH && old(src)@.len()
                < 4 + length_field(old(src)@) ==> r == Ok::<Option<Vec<u8>>, CodecError>(None)
                && final(src)@ == old(src)@,
            old(src)@.len() >= 4 && length_field(old(src)@) <= MAX_FRAME_LENGTH && old(src)@.len()
                >= 4 + length_field(old(src)@) ==> (r matches Ok(Some(f)) && f@ == old(
                src,
            )@.subrange(4, 4 + length_field(old(src)@)) && final(src)@ == old(src)@.skip(
                4 + length_field(old(src)@),
            )),
    {
        match split_frame(src.as_slice()) {
            FrameSplit::Incomplete => Ok(None),
            FrameSplit::TooLarge => Err(CodecError::FrameTooLarge),
            FrameSplit::Frame(frame, rest) => {
                *src = rest;
                Ok(Some(frame))
            },
        }
    }
}

/// A frame written for a payload reads back as that payload, whatever bytes
/// follow it: the length field holds the payload's length, the payload follows
/// it, and the bytes after the frame are left over.
pub proof fn lemma_frame_roundtrip(payload: Seq<u8>, rest: Seq<u8>)
    requires
        payload.len() <= MAX_FRAME_LENGTH,
    ensures
        ({
            let buf = frame_of(payload) + rest;
            &&& buf.len() >= 4
            &&& length_field(buf) == payload.len()
            &&& buf.len() >= 4 + length_field(buf)
            &&& buf.subrange(4, 4 + length_field(buf)) == payload
            &&& buf.skip(4 + length_field(buf)) == rest
        }),
{
    let n = payload.len();
    let buf = frame_of(payload) + rest;
    assert(buf[0] == (n / 16777216 % 256) as u8);
    assert(buf[1] == (n / 65536 % 256) as u8);
    assert(buf[2] == (n / 256 % 256) as u8);
    assert(buf[3] == (n % 256) as u8);
    assert((n / 16777216 % 256) * 16777216 + (n / 65536 % 256) * 65536 + (n / 256 % 256) * 256 + (n
        % 256) == n) by (nonlinear_arith)
        requires
            n < 4294967296,
    ;
    assert(buf.subrange(4, 4 + n as int) =~= payload);
    assert(buf.skip(4 + n as int) =~= rest);
}

/// A buffer that holds only part of a frame reads as nothing yet: the length
/// field announces more bytes than are present.
pub proof fn lemma_partial_frame_is_incomplete(payload: Seq<u8>, k: int)
    requires
        payload.len() <= MAX_FRAME_LENGTH,
        4 <= k < 4 + payload.len(),
    ensures
        ({
            let buf = frame_of(payload).take(k);
            &&& buf.len() >= 4
            &&& length_field(buf) <= MAX_FRAME_LENGTH
            &&& buf.len() < 4 + length_field(buf)
        }),
{
    lemma_frame_roundtrip(payload, seq![]);
    let full = frame_of(payload) + seq![];
    assert(full =~= frame_of(payload));
    let buf = frame_of(payload).take(k);
    assert(buf[0] == full[0] && buf[1] == full[1] && buf[2] == full[2] && buf[3] == full[3]);
}

} // verus!
