use crate::addr::Ipv4Address;
use crate::addr::Ipv6Address;
use crate::error::DecodeError;
use crate::Header;
use crate::stream::ByteStream;
use crate::stream::decoded;
use crate::wire::available;
use crate::wire::Decoding;
use crate::wire::holds;
use crate::wire::lemma_holds_split;
use crate::wire::failed;
use crate::wire::taken;
use crate::wire::truncated;
use vstd::prelude::*;

verus! {

/// The payload of a RIP record: a RIP message between two IPv4 addresses.
#[derive(Debug, PartialEq, Eq)]
#[allow(non_camel_case_types)]
pub struct RIP {
    /// The address that the message came from.
    pub remote: Ipv4Address,
    /// The address of the interface that received it.
    pub local: Ipv4Address,
    /// The RIP message, undecoded.
    pub message: Vec<u8>,
}

/// What a [`RIP`] holds, as mathematical values.
pub ghost struct RipView {
    pub remote: Ipv4Address,
    pub local: Ipv4Address,
    pub message: Seq<u8>,
}

impl View for RIP {
    type V = RipView;

    open spec fn view(&self) -> RipView {
        RipView { remote: self.remote, local: self.local, message: self.message@ }
    }
}

impl RipView {
    /// Whether the value can stand on the wire under a header of the given
    /// length: the length is that of the two addresses and the message
    /// together.
    pub open spec fn wf(self, length: u32) -> bool {
        length == 8 + self.message.len()
    }

    /// The bytes that stand for the value.
    pub open spec fn wire(self) -> Seq<u8> {
        self.remote.wire() + self.local.wire() + self.message
    }

    /// Decoding the bytes of a value gives the value, and takes those bytes.
    pub proof fn lemma_decode_wire(self, s: Seq<u8>, at: int, length: u32)
        requires
            self.wf(length),
            holds(s, at, self.wire()),
        ensures
            RIP::decode(s, at, length) == taken(self, self.wire().len()),
    {
        lemma_holds_split(s, at, self.remote.wire() + self.local.wire(), self.message);
        lemma_holds_split(s, at, self.remote.wire(), self.local.wire());
        self.remote.lemma_at_wire(s, at);
        self.local.lemma_at_wire(s, at + 4);
    }
}

impl RIP {
    /// What the bytes at `at` stand for under a header of the given length:
    /// two addresses of 4 bytes each, then a message that takes what is
    /// left of the length. A length under 8 is an error, whatever the bytes.
    pub open spec fn decode(s: Seq<u8>, at: int, length: u32) -> Decoding<RipView> {
        if length < 8 {
            failed(DecodeError::InvalidLength(length), 0)
        } else if !available(s, at, length as int) {
            truncated(s, at)
        } else {
            Ok(
                (
                    RipView {
                        remote: Ipv4Address::at(s, at),
                        local: Ipv4Address::at(s, at + 4),
                        message: s.subrange(at + 8, at + length),
                    },
                    length as nat,
                ),
            )
        }
    }

    /// What is decoded can stand on the wire.
    pub proof fn lemma_decode_wf(s: Seq<u8>, at: int, length: u32)
        ensures
            RIP::decode(s, at, length) matches Ok((v, n)) ==> v.wf(length),
    {
    }

    /// Reads the payload of a RIP record. The length of the message is what
    /// the header's length leaves after the two addresses.
    pub fn parse(header: &Header, stream: &mut ByteStream) -> (r: Result<RIP, DecodeError>)
        ensures
            decoded(
                r,
                RIP::decode(
                    old(stream).bytes(),
                    old(stream).position() as int,
                    header.length,
                ),
                old(stream),
                final(stream),
            ),
            r matches Ok(m) ==> m.message@.len() == header.length - 8,
    {
        if header.length < 8 {
            return Err(DecodeError::InvalidLength(header.length));
        }
        let remote = Ipv4Address::parse(stream)?;
        let local = Ipv4Address::parse(stream)?;
        let message = stream.read_bytes((header.length - 8) as usize)?;
        Ok(RIP { remote, local, message })
    }
}

/// The payload of a RIPNG record: a RIPng message between two IPv6 addresses.
#[derive(Debug, PartialEq, Eq)]
#[allow(non_camel_case_types)]
pub struct RIPNG {
    /// The address that the message came from.
    pub remote: Ipv6Address,
    /// The address of the interface that received it.
    pub local: Ipv6Address,
    /// The RIPng message, undecoded.
    pub message: Vec<u8>,
}

/// What a [`RIPNG`] holds, as mathematical values.
pub ghost struct RipngView {
    pub remote: Ipv6Address,
    pub local: Ipv6Address,
    pub message: Seq<u8>,
}

impl View for RIPNG {
    type V = RipngView;

    open spec fn view(&self) -> RipngView {
        RipngView { remote: self.remote, local: self.local, message: self.message@ }
    }
}

impl RipngView {
    /// Whether the value can stand on the wire under a header of the given
    /// length: the length is that of the two addresses and the message
    /// together.
    pub open spec fn wf(self, length: u32) -> bool {
        length == 32 + self.message.len()
    }

    /// The bytes that stand for the value.
    pub open spec fn wire(self) -> Seq<u8> {
        self.remote.wire() + self.local.wire() + self.message
    }

    /// Decoding the bytes of a value gives the value, and takes those bytes.
    pub proof fn lemma_decode_wire(self, s: Seq<u8>, at: int, length: u32)
        requires
            self.wf(length),
            holds(s, at, self.wire()),
        ensures
            RIPNG::decode(s, at, length) == taken(self, self.wire().len()),
    {
        lemma_holds_split(s, at, self.remote.wire() + self.local.wire(), self.message);
        lemma_holds_split(s, at, self.remote.wire(), self.local.wire());
        self.remote.lemma_at_wire(s, at);
        self.local.lemma_at_wire(s, at + 16);
    }
}

impl RIPNG {
    /// What the bytes at `at` stand for under a header of the given length:
    /// two addresses of 16 bytes each, then a message that takes what is
    /// left of the length. A length under 32 is an error, whatever the bytes.
    pub open spec fn decode(s: Seq<u8>, at: int, length: u32) -> Decoding<RipngView> {
        if length < 32 {
            failed(DecodeError::InvalidLength(length), 0)
        } else if !available(s, at, length as int) {
            truncated(s, at)
        } else {
            Ok(
                (
                    RipngView {
                        remote: Ipv6Address::at(s, at),
                        local: Ipv6Address::at(s, at + 16),
                        message: s.subrange(at + 32, at + length),
                    },
                    length as nat,
                ),
            )
        }
    }

    /// What is decoded can stand on the wire.
    pub proof fn lemma_decode_wf(s: Seq<u8>, at: int, length: u32)
        ensures
            RIPNG::decode(s, at, length) matches Ok((v, n)) ==> v.wf(length),
    {
    }

    /// Reads the payload of a RIPNG record. The length of the message is what
    /// the header's length leaves after the two addresses.
    pub fn parse(header: &Header, stream: &mut ByteStream) -> (r: Result<RIPNG, DecodeError>)
        ensures
            decoded(
                r,
                RIPNG::decode(
                    old(stream).bytes(),
                    old(stream).position() as int,
                    header.length,
                ),
                old(stream),
                final(stream),
            ),
            r matches Ok(m) ==> m.message@.len() == header.length - 32,
    {
        if header.length < 32 {
            return Err(DecodeError::InvalidLength(header.length));
        }
        let remote = Ipv6Address::parse(stream)?;
        let local = Ipv6Address::parse(stream)?;
        let message = stream.read_bytes((header.length - 32) as usize)?;
        Ok(RIPNG { remote, local, message })
    }
}

} // verus!
