use crate::error::DecodeError;
use crate::Header;
use crate::stream::ByteStream;
use crate::stream::decoded;
use crate::wire::available;
use crate::wire::Decoding;
use crate::wire::holds;
use crate::wire::taken;
use crate::wire::truncated;
use vstd::prelude::*;

verus! {

/// What the bytes at `at` stand for under a header of the given length: an
/// ISIS record has no fields of its own, so all `length` bytes are the
/// message.
pub open spec fn decode(s: Seq<u8>, at: int, length: u32) -> Decoding<Seq<u8>> {
    if !available(s, at, length as int) {
        truncated(s, at)
    } else {
        Ok((s.subrange(at, at + length), length as nat))
    }
}

/// Whether a message can stand on the wire under a header of the given
/// length: it has exactly that many bytes.
pub open spec fn wf(message: Seq<u8>, length: u32) -> bool {
    message.len() == length
}

/// Decoding a message that stands on the wire gives the message.
pub proof fn lemma_decode_wire(message: Seq<u8>, s: Seq<u8>, at: int, length: u32)
    requires
        wf(message, length),
        holds(s, at, message),
    ensures
        decode(s, at, length) == taken(message, message.len()),
{
}

/// Reads the payload of an ISIS record: the opaque message, as long as the
/// header says.
pub fn parse(header: &Header, stream: &mut ByteStream) -> (r: Result<Vec<u8>, DecodeError>)
    ensures
        decoded(
            r,
            decode(old(stream).bytes(), old(stream).position() as int, header.length),
            old(stream),
            final(stream),
        ),
{
    stream.read_bytes(header.length as usize)
}

} // verus!
