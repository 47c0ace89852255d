//! Network addresses as the wire holds them: one big-endian integer each.

use crate::AFI;
use crate::error::DecodeError;
use crate::stream::ByteStream;
use crate::stream::decoded;
use crate::wire::available;
use crate::wire::be_u128;
use crate::wire::be_u32;
use crate::wire::Decoding;
use crate::wire::holds;
use crate::wire::lemma_be_u128_holds;
use crate::wire::lemma_be_u32_holds;
use crate::wire::lemma_int_bytes_len;
use crate::wire::truncated;
use crate::wire::u128_bytes;
use crate::wire::u32_bytes;
use vstd::prelude::*;

verus! {

/// An IPv4 address: its four octets as one big-endian integer, so that
/// 10.0.0.1 is `0x0A00_0001`.
#[derive(Clone, Copy, Debug, PartialEq, Eq, Structural)]
pub struct Ipv4Address(pub u32);

/// An IPv6 address: its sixteen octets as one big-endian integer.
#[derive(Clone, Copy, Debug, PartialEq, Eq, Structural)]
pub struct Ipv6Address(pub u128);

/// An address of either family.
#[derive(Clone, Copy, Debug, PartialEq, Eq, Structural)]
pub enum IpAddress {
    /// An IPv4 address.
    V4(Ipv4Address),
    /// An IPv6 address.
    V6(Ipv6Address),
}

impl View for Ipv4Address {
    type V = Ipv4Address;

    open spec fn view(&self) -> Ipv4Address {
        *self
    }
}

impl View for Ipv6Address {
    type V = Ipv6Address;

    open spec fn view(&self) -> Ipv6Address {
        *self
    }
}

impl View for IpAddress {
    type V = IpAddress;

    open spec fn view(&self) -> IpAddress {
        *self
    }
}

impl Ipv4Address {
    /// The address whose four bytes start at `at`.
    pub open spec fn at(s: Seq<u8>, at: int) -> Ipv4Address {
        Ipv4Address(be_u32(s, at))
    }

    /// The address that is read from `s` at `at`, with the 4 bytes it takes.
    pub open spec fn decode(s: Seq<u8>, at: int) -> Decoding<Ipv4Address> {
        if available(s, at, 4) {
            Ok((Ipv4Address::at(s, at), 4nat))
        } else {
            truncated(s, at)
        }
    }

    /// The four bytes that stand for the address.
    pub open spec fn wire(self) -> Seq<u8> {
        u32_bytes(self.0)
    }

    /// Reading back the bytes of an address gives it.
    pub proof fn lemma_at_wire(self, s: Seq<u8>, at: int)
        requires
            holds(s, at, self.wire()),
        ensures
            self.wire().len() == 4,
            Ipv4Address::at(s, at) == self,
    {
        lemma_int_bytes_len();
        lemma_be_u32_holds(s, at, self.0);
    }

    /// Reads an IPv4 address.
    pub fn parse(stream: &mut ByteStream) -> (r: Result<Ipv4Address, DecodeError>)
        ensures
            decoded(
                r,
                Ipv4Address::decode(old(stream).bytes(), old(stream).position() as int),
                old(stream),
                final(stream),
            ),
    {
        Ok(Ipv4Address(stream.read_u32()?))
    }
}

impl Ipv6Address {
    /// The address whose sixteen bytes start at `at`.
    pub open spec fn at(s: Seq<u8>, at: int) -> Ipv6Address {
        Ipv6Address(be_u128(s, at))
    }

    /// The address that is read from `s` at `at`, with the 16 bytes it takes.
    pub open spec fn decode(s: Seq<u8>, at: int) -> Decoding<Ipv6Address> {
        if available(s, at, 16) {
            Ok((Ipv6Address::at(s, at), 16nat))
        } else {
            truncated(s, at)
        }
    }

    /// The sixteen bytes that stand for the address.
    pub open spec fn wire(self) -> Seq<u8> {
        u128_bytes(self.0)
    }

    /// Reading back the bytes of an address gives it.
    pub proof fn lemma_at_wire(self, s: Seq<u8>, at: int)
        requires
            holds(s, at, self.wire()),
        ensures
            self.wire().len() == 16,
            Ipv6Address::at(s, at) == self,
    {
        lemma_int_bytes_len();
        lemma_be_u128_holds(s, at, self.0);
    }

    /// Reads an IPv6 address.
    pub fn parse(stream: &mut ByteStream) -> (r: Result<Ipv6Address, DecodeError>)
        ensures
            decoded(
                r,
                Ipv6Address::decode(old(stream).bytes(), old(stream).position() as int),
                old(stream),
                final(stream),
            ),
    {
        Ok(Ipv6Address(stream.read_u128()?))
    }
}

impl IpAddress {
    /// The family of the address.
    pub open spec fn afi(self) -> AFI {
        match self {
            IpAddress::V4(_) => AFI::IPV4,
            IpAddress::V6(_) => AFI::IPV6,
        }
    }

    /// The address of family `afi` whose bytes start at `at`.
    pub open spec fn at(s: Seq<u8>, at: int, afi: AFI) -> IpAddress {
        match afi {
            AFI::IPV4 => IpAddress::V4(Ipv4Address::at(s, at)),
            AFI::IPV6 => IpAddress::V6(Ipv6Address::at(s, at)),
        }
    }

    /// The address of family `afi` that is read from `s` at `at`, with the
    /// bytes it takes: as many as the family is wide.
    pub open spec fn decode(s: Seq<u8>, at: int, afi: AFI) -> Decoding<IpAddress> {
        if available(s, at, afi.width()) {
            Ok((IpAddress::at(s, at, afi), afi.width() as nat))
        } else {
            truncated(s, at)
        }
    }

    /// The bytes that stand for the address: 4 or 16, most significant first.
    pub open spec fn wire(self) -> Seq<u8> {
        match self {
            IpAddress::V4(a) => a.wire(),
            IpAddress::V6(a) => a.wire(),
        }
    }

    /// Reading back the bytes of an address, as its own family, gives it.
    pub proof fn lemma_at_wire(self, s: Seq<u8>, at: int)
        requires
            holds(s, at, self.wire()),
        ensures
            self.wire().len() == self.afi().width(),
            IpAddress::at(s, at, self.afi()) == self,
    {
        match self {
            IpAddress::V4(a) => {
                a.lemma_at_wire(s, at);
            },
            IpAddress::V6(a) => {
                a.lemma_at_wire(s, at);
            },
        }
    }

    /// Reads an address of the family `afi`.
    pub fn parse(afi: AFI, stream: &mut ByteStream) -> (r: Result<IpAddress, DecodeError>)
        ensures
            decoded(
                r,
                IpAddress::decode(old(stream).bytes(), old(stream).position() as int, afi),
                old(stream),
                final(stream),
            ),
    {
        match afi {
            AFI::IPV4 => Ok(IpAddress::V4(Ipv4Address(stream.read_u32()?))),
            AFI::IPV6 => Ok(IpAddress::V6(Ipv6Address(stream.read_u128()?))),
        }
    }
}

} // verus!
