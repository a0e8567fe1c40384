//! Frames on a byte stream: a length in four bytes, the most significant first, and the data.

use vstd::prelude::*;

verus! {

/// The four bytes of a number, the most significant first.
pub open spec fn length_bytes(n: nat) -> Seq<u8> {
    seq![
        (n / 0x100_0000 % 0x100) as u8,
        (n / 0x1_0000 % 0x100) as u8,
        (n / 0x100 % 0x100) as u8,
        (n % 0x100) as u8,
    ]
}

/// The number that four bytes give, the most significant first.
pub open spec fn length_of(bytes: Seq<u8>) -> nat {
    (bytes[0] as nat) * 0x100_0000 + (bytes[1] as nat) * 0x1_0000 + (bytes[2] as nat) * 0x100 + (
    bytes[3] as nat)
}

/// A frame: the length of the data modulo the range of four bytes, and the data.
pub open spec fn framed(data: Seq<u8>) -> Seq<u8> {
    length_bytes(data.len()) + data
}

/// What a reader takes from the start of a stream: a length, and as many bytes as it says.
/// `None` where the stream ends before that.
pub open spec fn unframed(stream: Seq<u8>) -> Option<Seq<u8>> {
    if stream.len() < 4 || stream.len() < 4 + length_of(stream.take(4)) {
        None
    } else {
        Some(stream.subrange(4, 4 + length_of(stream.take(4)) as int))
    }
}

/// What a reader takes from a stream that starts with a frame is the data of the frame, where the
/// data is short enough for its length to be given.
pub proof fn law_frame_reads_back(data: Seq<u8>, rest: Seq<u8>)
    requires
        data.len() < 0x1_0000_0000,
    ensures
        unframed(framed(data) + rest) == Some(data),
{
    let stream = framed(data) + rest;
    assert(stream.take(4) =~= length_bytes(data.len()));
    assert(length_of(length_bytes(data.len())) == data.len());
    assert(stream.subrange(4, 4 + data.len() as int) =~= data);
}

/// Puts data into a frame.
pub fn frame(data: &[u8]) -> (r: Vec<u8>)
    ensures
        r@ == framed(data@),
{
    let n: usize = data.len();
    let mut r: Vec<u8> = Vec::new();
    r.push((n / 0x100_0000 % 0x100) as u8);
    r.push((n / 0x1_0000 % 0x100) as u8);
    r.push((n / 0x100 % 0x100) as u8);
    r.push((n % 0x100) as u8);
    r.extend_from_slice(data);
    assert(r@ =~= framed(data@));
    r
}

/// The number of bytes that follow the start of a frame.
pub fn frame_length(start: &[u8; 4]) -> (r: u32)
    ensures
        r == length_of(start@),
{
    (start[0] as u32) * 0x100_0000 + (start[1] as u32) * 0x1_0000 + (start[2] as u32) * 0x100 + (
    start[3] as u32)
}

} // verus!
