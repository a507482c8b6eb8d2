use vstd::prelude::*;
use crate::protocol::MAX_FRAME_SIZE;

verus! {

/// Each frame on the wire is a 4-byte big-endian length followed by that many
/// payload bytes.
pub open spec fn be32(x: nat) -> Seq<u8> {
    seq![
        ((x / 16777216) % 256) as u8,
        ((x / 65536) % 256) as u8,
        ((x / 256) % 256) as u8,
        (x % 256) as u8,
    ]
}

/// The number that four big-endian bytes spell.
pub open spec fn be32_value(b: Seq<u8>) -> nat {
    (b[0] as nat) * 16777216 + (b[1] as nat) * 65536 + (b[2] as nat) * 256 + (b[3] as nat)
}

/// The length field written for a payload of `len` bytes: the length is
/// truncated to 32 bits, as a `u32` cast does.
pub open spec fn header_of(len: nat) -> Seq<u8> {
    be32(len % 4294967296)
}

/// The bytes a frame carrying `payload` puts on the wire.
pub open spec fn frame_of(payload: Seq<u8>) -> Seq<u8> {
    header_of(payload.len()) + payload
}

/// Why a frame header is refused.
#[derive(Clone, Copy, Debug, PartialEq, Eq, Structural)]
pub enum FrameError {
    /// The announced payload is larger than `MAX_FRAME_SIZE`.
    TooLarge { len: u64 },
}

/// What a reader makes of a 4-byte header.
pub open spec fn header_len(header: Seq<u8>) -> Result<nat, FrameError> {
    let v = be32_value(header);
    if v > MAX_FRAME_SIZE {
        Err(FrameError::TooLarge { len: v as u64 })
    } else {
        Ok(v)
    }
}

/// The 4-byte length header for a payload of `payload_len` bytes.
pub fn frame_header(payload_len: usize) -> (header: [u8; 4])
    ensures
        header@ == header_of(payload_len as nat),
{
    let x: u64 = (payload_len as u64) % 4294967296;
    let h: [u8; 4] = [
        ((x / 16777216) % 256) as u8,
        ((x / 65536) % 256) as u8,
        ((x / 256) % 256) as u8,
        (x % 256) as u8,
    ];
    assert(h@ =~= header_of(payload_len as nat));
    h
}

/// The full frame for `payload`: its length header, then the payload.
pub fn encode_frame(payload: &[u8]) -> (frame: Vec<u8>)
    ensures
        frame@ == frame_of(payload@),
{
    let header = frame_header(payload.len());
    let mut frame: Vec<u8> = Vec::with_capacity(4);
    frame.push(header[0]);
    frame.push(header[1]);
    frame.push(header[2]);
    frame.push(header[3]);
    frame.extend_from_slice(payload);
    assert(frame@ =~= frame_of(payload@));
    frame
}

/// Reads the payload length from a frame header, refusing lengths above
/// `MAX_FRAME_SIZE`.
pub fn frame_payload_len(header: [u8; 4]) -> (res: Result<usize, FrameError>)
    ensures
        match header_len(header@) {
            Ok(n) => res == Ok::<usize, FrameError>(n as usize),
            Err(e) => res == Err::<usize, FrameError>(e),
        },
{
    let v: u64 = (header[0] as u64) * 16777216 + (header[1] as u64) * 65536 + (header[2] as u64)
        * 256 + (header[3] as u64);
    if v > MAX_FRAME_SIZE as u64 {
        Err(FrameError::TooLarge { len: v })
    } else {
        Ok(v as usize)
    }
}

/// Four big-endian bytes spell back the number they were written from.
pub proof fn lemma_be32_roundtrip(x: nat)
    requires
        x < 4294967296,
    ensures
        be32(x).len() == 4,
        be32_value(be32(x)) == x,
{
    let b = be32(x);
    assert(b[0] as nat == (x / 16777216) % 256);
    assert(b[1] as nat == (x / 65536) % 256);
    assert(b[2] as nat == (x / 256) % 256);
    assert(b[3] as nat == x % 256);
    assert(be32_value(b) == x) by (nonlinear_arith)
        requires
            x < 4294967296,
            b[0] as nat == (x / 16777216) % 256,
            b[1] as nat == (x / 65536) % 256,
            b[2] as nat == (x / 256) % 256,
            b[3] as nat == x % 256,
            be32_value(b) == (b[0] as nat) * 16777216 + (b[1] as nat) * 65536 + (b[2] as nat) * 256 + (b[3] as nat),
    ;
}

/// What a reader gets back of a written frame: for every payload up to
/// `MAX_FRAME_SIZE` bytes, the header of its frame announces exactly its
/// length, and the bytes after the header are exactly the payload.
pub proof fn lemma_frame_roundtrip(payload: Seq<u8>)
    requires
        payload.len() <= MAX_FRAME_SIZE,
    ensures
        header_len(frame_of(payload).take(4)) == Ok::<nat, FrameError>(payload.len()),
        frame_of(payload).skip(4) == payload,
{
    lemma_be32_roundtrip(payload.len());
    assert(frame_of(payload).take(4) =~= be32(payload.len()));
    assert(frame_of(payload).skip(4) =~= payload);
}

/// A payload longer than `MAX_FRAME_SIZE` (but still under 4 GiB) is written,
/// and the reader refuses it with its length.
pub proof fn lemma_oversized_frame_refused(payload: Seq<u8>)
    requires
        MAX_FRAME_SIZE < payload.len() < 4294967296,
    ensures
        header_len(frame_of(payload).take(4)) == Err::<nat, FrameError>(
            FrameError::TooLarge { len: payload.len() as u64 },
        ),
{
    lemma_be32_roundtrip(payload.len());
    assert(frame_of(payload).take(4) =~= be32(payload.len()));
}

} // verus!
