use crate::addr::IpAddress;
use crate::addr::Ipv4Address;
use crate::AFI;
use crate::error::DecodeError;
use crate::Header;
use crate::stream::ByteStream;
use crate::stream::decoded;
use crate::wire::available;
use crate::wire::be_u16;
use crate::wire::Decoding;
use crate::wire::holds;
use crate::wire::lemma_be_u16_holds;
use crate::wire::lemma_holds_split;
use crate::wire::failed;
use crate::wire::taken;
use crate::wire::truncated;
use crate::wire::u16_bytes;
use vstd::prelude::*;

verus! {

/// The payload of an OSPFv2 record: an OSPFv2 message between two IPv4 addresses.
#[derive(Debug, PartialEq, Eq)]
#[allow(non_camel_case_types)]
pub struct OSPFv2 {
    /// The address that the message came from.
    pub remote: Ipv4Address,
    /// The address of the interface that received it.
    pub local: Ipv4Address,
    /// The OSPFv2 message, undecoded.
    pub message: Vec<u8>,
}

/// What a [`OSPFv2`] holds, as mathematical values.
pub ghost struct Ospfv2View {
    pub remote: Ipv4Address,
    pub local: Ipv4Address,
    pub message: Seq<u8>,
}

impl View for OSPFv2 {
    type V = Ospfv2View;

    open spec fn view(&self) -> Ospfv2View {
        Ospfv2View { remote: self.remote, local: self.local, message: self.message@ }
    }
}

impl Ospfv2View {
    /// Whether the value can stand on the wire under a header of the given
    /// length: the length is that of the two addresses and the message
    /// together.
    pub open spec fn wf(self, length: u32) -> bool {
        length == 8 + self.message.len()
    }

    /// The bytes that stand for the value.
    pub open spec fn wire(self) -> Seq<u8> {
        self.remote.wire() + self.local.wire() + self.message
    }

    /// Decoding the bytes of a value gives the value, and takes those bytes.
    pub proof fn lemma_decode_wire(self, s: Seq<u8>, at: int, length: u32)
        requires
            self.wf(length),
            holds(s, at, self.wire()),
        ensures
            OSPFv2::decode(s, at, length) == taken(self, self.wire().len()),
    {
        lemma_holds_split(s, at, self.remote.wire() + self.local.wire(), self.message);
        lemma_holds_split(s, at, self.remote.wire(), self.local.wire());
        self.remote.lemma_at_wire(s, at);
        self.local.lemma_at_wire(s, at + 4);
    }
}

impl OSPFv2 {
    /// What the bytes at `at` stand for under a header of the given length:
    /// two addresses of 4 bytes each, then a message that takes what is
    /// left of the length. A length under 8 is an error, whatever the bytes.
    pub open spec fn decode(s: Seq<u8>, at: int, length: u32) -> Decoding<Ospfv2View> {
        if length < 8 {
            failed(DecodeError::InvalidLength(length), 0)
        } else if !available(s, at, length as int) {
            truncated(s, at)
        } else {
            Ok(
                (
                    Ospfv2View {
                        remote: Ipv4Address::at(s, at),
                        local: Ipv4Address::at(s, at + 4),
                        message: s.subrange(at + 8, at + length),
                    },
                    length as nat,
                ),
            )
        }
    }

    /// What is decoded can stand on the wire.
    pub proof fn lemma_decode_wf(s: Seq<u8>, at: int, length: u32)
        ensures
            OSPFv2::decode(s, at, length) matches Ok((v, n)) ==> v.wf(length),
    {
    }

    /// Reads the payload of a OSPFv2 record. The length of the message is what
    /// the header's length leaves after the two addresses.
    pub fn parse(header: &Header, stream: &mut ByteStream) -> (r: Result<OSPFv2, DecodeError>)
        ensures
            decoded(
                r,
                OSPFv2::decode(
                    old(stream).bytes(),
                    old(stream).position() as int,
                    header.length,
                ),
                old(stream),
                final(stream),
            ),
            r matches Ok(m) ==> m.message@.len() == header.length - 8,
    {
        if header.length < 8 {
            return Err(DecodeError::InvalidLength(header.length));
        }
        let remote = Ipv4Address::parse(stream)?;
        let local = Ipv4Address::parse(stream)?;
        let message = stream.read_bytes((header.length - 8) as usize)?;
        Ok(OSPFv2 { remote, local, message })
    }
}

/// The payload of an OSPFv3 record: an OSPFv3 message between two addresses
/// whose family a code on the wire selects.
#[derive(Debug, PartialEq, Eq)]
#[allow(non_camel_case_types)]
pub struct OSPFv3 {
    /// The address that the message came from.
    pub remote: IpAddress,
    /// The address of the interface that received it.
    pub local: IpAddress,
    /// The OSPFv3 message, undecoded.
    pub message: Vec<u8>,
}

/// What an [`OSPFv3`] holds, as mathematical values.
pub ghost struct Ospfv3View {
    pub remote: IpAddress,
    pub local: IpAddress,
    pub message: Seq<u8>,
}

impl View for OSPFv3 {
    type V = Ospfv3View;

    open spec fn view(&self) -> Ospfv3View {
        Ospfv3View { remote: self.remote, local: self.local, message: self.message@ }
    }
}

impl Ospfv3View {
    /// Whether the value can stand on the wire under a header of the given
    /// length: both addresses are of one family, and the length is that of
    /// the two addresses and the message together.
    pub open spec fn wf(self, length: u32) -> bool {
        &&& self.remote.afi() == self.local.afi()
        &&& length == 2 * self.remote.afi().width() + self.message.len()
    }

    /// The bytes that stand for the value: the family code, the two
    /// addresses, the message.
    pub open spec fn wire(self) -> Seq<u8> {
        u16_bytes(self.remote.afi().code()) + self.remote.wire() + self.local.wire() + self.message
    }

    /// Decoding the bytes of a value gives the value, and takes those bytes.
    pub proof fn lemma_decode_wire(self, s: Seq<u8>, at: int, length: u32)
        requires
            self.wf(length),
            holds(s, at, self.wire()),
        ensures
            OSPFv3::decode(s, at, length) == taken(self, self.wire().len()),
    {
        let part1 = u16_bytes(self.remote.afi().code());
        lemma_holds_split(s, at, part1 + self.remote.wire() + self.local.wire(), self.message);
        lemma_holds_split(s, at, part1 + self.remote.wire(), self.local.wire());
        lemma_holds_split(s, at, part1, self.remote.wire());
        lemma_be_u16_holds(s, at, self.remote.afi().code());
        self.remote.lemma_at_wire(s, at + 2);
        self.local.lemma_at_wire(s, at + 2 + self.remote.afi().width());
    }
}

impl OSPFv3 {
    /// What the bytes at `at` stand for under a header of the given length:
    /// an address family code, two addresses of that family, then a message
    /// that takes what the length leaves after the two addresses.
    pub open spec fn decode(s: Seq<u8>, at: int, length: u32) -> Decoding<Ospfv3View> {
        if !available(s, at, 2) {
            truncated(s, at)
        } else {
            match AFI::of_code(be_u16(s, at)) {
                None => failed(DecodeError::InvalidAfi(be_u16(s, at)), 2),
                Some(afi) => if length < 2 * afi.width() {
                    failed(DecodeError::InvalidLength(length), 2)
                } else if !available(s, at + 2, length as int) {
                    truncated(s, at)
                } else {
                    Ok(
                        (
                            Ospfv3View {
                                remote: IpAddress::at(s, at + 2, afi),
                                local: IpAddress::at(s, at + 2 + afi.width(), afi),
                                message: s.subrange(at + 2 + 2 * afi.width(), at + 2 + length),
                            },
                            (2 + length) as nat,
                        ),
                    )
                },
            }
        }
    }

    /// What is decoded can stand on the wire.
    pub proof fn lemma_decode_wf(s: Seq<u8>, at: int, length: u32)
        ensures
            OSPFv3::decode(s, at, length) matches Ok((v, n)) ==> v.wf(length),
    {
    }

    /// Reads the payload of an OSPFv3 record. The length of the message is
    /// what the header's length leaves after the two addresses. An undefined
    /// family code is refused right behind its two bytes, before a byte of
    /// an address is read.
    pub fn parse(header: &Header, stream: &mut ByteStream) -> (r: Result<OSPFv3, DecodeError>)
        ensures
            decoded(
                r,
                OSPFv3::decode(
                    old(stream).bytes(),
                    old(stream).position() as int,
                    header.length,
                ),
                old(stream),
                final(stream),
            ),
            r matches Ok(m) ==> m.message@.len() == header.length - 2 * m.remote.afi().width(),
            r matches Err(DecodeError::InvalidAfi(_)) ==> final(stream).position() == old(
                stream,
            ).position() + 2,
    {
        let code = stream.read_u16()?;
        let afi = AFI::from(code)?;
        let prefix: u32 = 2 * afi.size();
        if header.length < prefix {
            return Err(DecodeError::InvalidLength(header.length));
        }
        let remote = IpAddress::parse(afi, stream)?;
        let local = IpAddress::parse(afi, stream)?;
        let message = stream.read_bytes((header.length - prefix) as usize)?;
        Ok(OSPFv3 { remote, local, message })
    }
}

} // verus!
