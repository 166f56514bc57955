//! Framing of the remote Envelope stream.
//!
//! Each message is a little-endian `u32` length followed by that many bytes.
//! Outgoing payloads are zstd-compressed. Incoming payloads that start with
//! the zstd magic number are decompressed; any other payload is a legacy
//! uncompressed frame and is taken as it is, so a new GUI can still attach to
//! an old daemon.

use vstd::prelude::*;

verus! {

#[verifier::external_type_specification]
#[verifier::external_body]
pub struct ExIoError(std::io::Error);

/// Id of a message on the remote stream.
#[derive(Debug, Copy, Clone, Hash, PartialEq, Eq, Structural)]
pub struct MessageId(pub u32);

/// Size in bytes of the length prefix.
pub const MESSAGE_LEN_SIZE: usize = 4;

/// zstd level used for outgoing frames.
pub const COMPRESSION_LEVEL: i32 = 4;

/// What can go wrong while framing or unframing a payload.
#[derive(Debug, Clone, Copy, PartialEq, Eq, Structural)]
pub enum FrameError {
    /// The payload does not fit a `u32` length prefix.
    TooLong,
    /// zstd could not compress the payload.
    Compress,
    /// The payload starts like a zstd frame but does not decompress.
    Decompress,
}

/// The number that four little-endian bytes encode.
pub open spec fn le_u32(bytes: Seq<u8>) -> int {
    bytes[0] as int + bytes[1] as int * 0x100 + bytes[2] as int * 0x1_0000 + bytes[3] as int
        * 0x100_0000
}

/// The zstd frame magic number `0xFD2FB528`, in wire order.
pub open spec fn zstd_magic() -> Seq<u8> {
    seq![0x28u8, 0xB5u8, 0x2Fu8, 0xFDu8]
}

pub open spec fn starts_with_zstd_magic(bytes: Seq<u8>) -> bool {
    bytes.len() >= 4 && bytes.take(4) == zstd_magic()
}

/// What `zstd::stream::decode_all` gives back for `frame`: the decompressed
/// bytes, or nothing when `frame` is not valid zstd data.
pub uninterp spec fn zstd_decoded(frame: Seq<u8>) -> Option<Seq<u8>>;

/// The payload a received frame body stands for: the decompressed bytes of a
/// zstd frame, or the body itself for a legacy uncompressed frame.
pub open spec fn payload_of(body: Seq<u8>) -> Option<Seq<u8>> {
    if starts_with_zstd_magic(body) {
        zstd_decoded(body)
    } else {
        Some(body)
    }
}

/// A complete frame: a length prefix that counts the body after it.
pub open spec fn is_frame(frame: Seq<u8>) -> bool {
    frame.len() >= 4 && le_u32(frame.take(4)) == frame.len() - 4
}

/// Whether `zstd::stream::encode_all` succeeds on `bytes` at `level`; its
/// failures come from zstd's own codes, which depend on these alone.
pub uninterp spec fn zstd_compresses(bytes: Seq<u8>, level: i32) -> bool;

/// The bytes `zstd::stream::encode_all` writes for `bytes` at `level` when it
/// succeeds.
pub uninterp spec fn zstd_encoded(bytes: Seq<u8>, level: i32) -> Seq<u8>;

/// `zstd::stream::encode_all`. Its documentation promises output in the zstd
/// frame format, which begins with the magic number, and the compression is
/// lossless: decoding the output gives the input back. Whether it succeeds
/// and the bytes it writes are named.
#[verifier::external_body]
fn zstd_encode_all(bytes: &[u8], level: i32) -> (r: Result<Vec<u8>, std::io::Error>)
    ensures
        r is Ok <==> zstd_compresses(bytes@, level),
        r matches Ok(out) ==> out@ == zstd_encoded(bytes@, level) && starts_with_zstd_magic(out@)
            && zstd_decoded(out@) == Some(bytes@),
{
    zstd::stream::encode_all(bytes, level)
}

/// `zstd::stream::decode_all`: the decompressed bytes, or an error when the
/// input is not valid zstd data.
#[verifier::external_body]
fn zstd_decode_all(bytes: &[u8]) -> (r: Result<Vec<u8>, std::io::Error>)
    ensures
        match r {
            Ok(out) => zstd_decoded(bytes@) == Some(out@),
            Err(_) => zstd_decoded(bytes@) is None,
        },
{
    zstd::stream::decode_all(bytes)
}

/// The length that a 4-byte little-endian prefix announces.
pub fn message_len_from_buffer(buffer: &[u8]) -> (len: u32)
    requires
        buffer@.len() == MESSAGE_LEN_SIZE,
    ensures
        len == le_u32(buffer@),
{
    buffer[0] as u32 + buffer[1] as u32 * 0x100 + buffer[2] as u32 * 0x1_0000 + buffer[3] as u32
        * 0x100_0000
}

/// `len` as four little-endian bytes.
fn len_prefix(len: u32) -> (bytes: Vec<u8>)
    ensures
        bytes@.len() == 4,
        le_u32(bytes@) == len,
{
    let b0 = (len % 0x100) as u8;
    let b1 = (len / 0x100 % 0x100) as u8;
    let b2 = (len / 0x1_0000 % 0x100) as u8;
    let b3 = (len / 0x100_0000) as u8;
    let mut bytes = Vec::new();
    bytes.push(b0);
    bytes.push(b1);
    bytes.push(b2);
    bytes.push(b3);
    assert(b0 as int + b1 as int * 0x100 + b2 as int * 0x1_0000 + b3 as int * 0x100_0000 == len)
        by (nonlinear_arith)
        requires
            b0 == len % 0x100,
            b1 == len / 0x100 % 0x100,
            b2 == len / 0x1_0000 % 0x100,
            b3 == len / 0x100_0000,
    ;
    bytes
}

/// `buffer` behind its length prefix.
fn prefixed(buffer: &[u8]) -> (frame: Result<Vec<u8>, FrameError>)
    ensures
        match frame {
            Ok(f) => buffer@.len() <= u32::MAX && f@.len() == buffer@.len() + 4
                && le_u32(f@.take(4)) == buffer@.len() && f@.skip(4) == buffer@,
            Err(e) => buffer@.len() > u32::MAX && e == FrameError::TooLong,
        },
{
    if buffer.len() > 0xffff_ffff {
        return Err(FrameError::TooLong);
    }
    let mut frame = len_prefix(buffer.len() as u32);
    let ghost prefix = frame@;
    let mut i: usize = 0;
    while i < buffer.len()
        invariant
            i <= buffer@.len(),
            frame@ == prefix + buffer@.take(i as int),
        decreases buffer@.len() - i,
    {
        frame.push(buffer[i]);
        assert(buffer@.take(i + 1) =~= buffer@.take(i as int).push(buffer@[i as int]));
        i += 1;
    }
    assert(buffer@.take(buffer@.len() as int) =~= buffer@);
    assert(frame@.take(4) =~= prefix);
    assert(frame@.skip(4) =~= buffer@);
    Ok(frame)
}

/// A size-prefixed frame holding `buffer` as it is.
pub fn size_prefixed_frame(buffer: &[u8]) -> (frame: Result<Vec<u8>, FrameError>)
    ensures
        match frame {
            Ok(f) => is_frame(f@) && f@.skip(4) == buffer@,
            Err(e) => buffer@.len() > u32::MAX && e == FrameError::TooLong,
        },
{
    prefixed(buffer)
}

/// The frame for one encoded Envelope: compressed with zstd, behind its
/// length prefix. Whatever zstd answers, a frame that comes back is complete
/// and its body reads back as `encoded`.
pub fn encode_message(encoded: &[u8]) -> (frame: Result<Vec<u8>, FrameError>)
    ensures
        match frame {
            Ok(f) => is_frame(f@) && starts_with_zstd_magic(f@.skip(4)) && zstd_decoded(f@.skip(4))
                == Some(encoded@),
            Err(e) => e == FrameError::Compress || e == FrameError::TooLong,
        },
        (frame matches Err(e) && e == FrameError::Compress) <==> !zstd_compresses(
            encoded@,
            COMPRESSION_LEVEL,
        ),
        frame is Ok <==> (zstd_compresses(encoded@, COMPRESSION_LEVEL) && zstd_encoded(
            encoded@,
            COMPRESSION_LEVEL,
        ).len() <= u32::MAX),
        frame matches Ok(f) ==> f@.skip(4) == zstd_encoded(encoded@, COMPRESSION_LEVEL),
{
    let compressed = match zstd_encode_all(encoded, COMPRESSION_LEVEL) {
        Ok(compressed) => compressed,
        Err(_) => {
            return Err(FrameError::Compress);
        },
    };
    prefixed(compressed.as_slice())
}

/// The payload of a received frame body: decompressed when it starts with
/// the zstd magic number, taken as it is otherwise.
pub fn decode_payload(body: &[u8]) -> (payload: Result<Vec<u8>, FrameError>)
    ensures
        match payload {
            Ok(p) => payload_of(body@) == Some(p@),
            Err(e) => payload_of(body@) is None && e == FrameError::Decompress,
        },
{
    let is_zstd = body.len() >= 4 && body[0] == 0x28 && body[1] == 0xB5 && body[2] == 0x2F
        && body[3] == 0xFD;
    assert(is_zstd == starts_with_zstd_magic(body@)) by {
        if body@.len() >= 4 {
            assert(body@.take(4) =~= seq![body@[0], body@[1], body@[2], body@[3]]);
        }
    }
    if is_zstd {
        match zstd_decode_all(body) {
            Ok(decoded) => Ok(decoded),
            Err(_) => Err(FrameError::Decompress),
        }
    } else {
        let mut copy: Vec<u8> = Vec::new();
        let mut i: usize = 0;
        while i < body.len()
            invariant
                i <= body@.len(),
                copy@ == body@.take(i as int),
            decreases body@.len() - i,
        {
            copy.push(body[i]);
            assert(body@.take(i + 1) =~= body@.take(i as int).push(body@[i as int]));
            i += 1;
        }
        assert(body@.take(body@.len() as int) =~= body@);
        Ok(copy)
    }
}

/// Reading back a written frame gives the message that was written: the
/// length prefix counts the body exactly, and the body decodes to the
/// encoded Envelope.
pub proof fn lemma_read_gives_back_write(frame: Seq<u8>, encoded: Seq<u8>)
    requires
        is_frame(frame),
        starts_with_zstd_magic(frame.skip(4)),
        zstd_decoded(frame.skip(4)) == Some(encoded),
    ensures
        le_u32(frame.take(4)) == frame.skip(4).len(),
        payload_of(frame.skip(4)) == Some(encoded),
{
}

/// A legacy frame, whose body does not start with the zstd magic number,
/// is read back as it was written.
pub proof fn lemma_legacy_frames_pass_through(frame: Seq<u8>)
    requires
        is_frame(frame),
        !starts_with_zstd_magic(frame.skip(4)),
    ensures
        le_u32(frame.take(4)) == frame.skip(4).len(),
        payload_of(frame.skip(4)) == Some(frame.skip(4)),
{
}

} // verus!
