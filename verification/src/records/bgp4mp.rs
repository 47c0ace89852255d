use crate::addr::IpAddress;
use crate::addr::Ipv4Address;
use crate::addr::Ipv6Address;
use crate::AFI;
use crate::error::DecodeError;
use crate::Header;
use crate::stream::ByteStream;
use crate::stream::decoded;
use crate::wire::asn_at;
use crate::wire::asn_bytes;
use crate::wire::asn_width;
use crate::wire::available;
use crate::wire::be_u16;
use crate::wire::be_u32;
use crate::wire::Decoding;
use crate::wire::holds;
use crate::wire::lemma_be_u16_holds;
use crate::wire::lemma_be_u32_holds;
use crate::wire::lemma_holds_split;
use crate::wire::lemma_int_bytes_len;
use crate::wire::lemma_nul_distance_is_first;
use crate::wire::lemma_nul_distance_some;
use crate::wire::lemma_u8_holds;
use crate::wire::map_decoded;
use crate::wire::nul_distance;
use crate::wire::nul_free;
use crate::wire::prefix_bytes;
use crate::wire::failed;
use crate::wire::taken;
use crate::wire::truncated;
use crate::wire::u16_bytes;
use crate::wire::u32_bytes;
use vstd::prelude::*;

verus! {

/// The fields that open every BGP4MP payload but SNAPSHOT: the two AS
/// numbers, the interface index, and the two addresses, whose family a code
/// on the wire selects.
#[derive(Clone, Copy, Debug, PartialEq, Eq, Structural)]
pub struct Peering {
    /// The AS number of the peer; below 65536 where the subtype has 16-bit
    /// AS numbers.
    pub peer_as: u32,
    /// The AS number of the collector; below 65536 where the subtype has
    /// 16-bit AS numbers.
    pub local_as: u32,
    /// The interface index.
    pub interface: u16,
    /// The address of the peer.
    pub peer_address: IpAddress,
    /// The address of the collector, of the same family.
    pub local_address: IpAddress,
}

impl View for Peering {
    type V = Peering;

    open spec fn view(&self) -> Peering {
        *self
    }
}

impl Peering {
    /// The size of the fields before the addresses: 8 bytes with 16-bit AS
    /// numbers, 12 with 32-bit ones.
    pub open spec fn fixed_len(as4: bool) -> int {
        2 * asn_width(as4) + 4
    }

    /// The size of the whole: the fixed fields and two addresses.
    pub open spec fn len(self, as4: bool) -> int {
        Peering::fixed_len(as4) + 2 * self.peer_address.afi().width()
    }

    /// What the bytes at `at` stand for. The address family code is checked
    /// before the addresses are read.
    pub open spec fn decode(s: Seq<u8>, at: int, as4: bool) -> Decoding<Peering> {
        let w = asn_width(as4);
        if !available(s, at, 2 * w + 4) {
            truncated(s, at)
        } else {
            match AFI::of_code(be_u16(s, at + 2 * w + 2)) {
                None => failed(DecodeError::InvalidAfi(be_u16(s, at + 2 * w + 2)), 2 * w + 4),
                Some(afi) => {
                    let a = afi.width();
                    if !available(s, at + 2 * w + 4, 2 * a) {
                        truncated(s, at)
                    } else {
                        Ok(
                            (
                                Peering {
                                    peer_as: asn_at(s, at, as4),
                                    local_as: asn_at(s, at + w, as4),
                                    interface: be_u16(s, at + 2 * w),
                                    peer_address: IpAddress::at(s, at + 2 * w + 4, afi),
                                    local_address: IpAddress::at(s, at + 2 * w + 4 + a, afi),
                                },
                                (2 * w + 4 + 2 * a) as nat,
                            ),
                        )
                    }
                },
            }
        }
    }

    /// Whether the value can stand on the wire: both addresses are of one
    /// family, and the AS numbers fit their width.
    pub open spec fn wf(self, as4: bool) -> bool {
        &&& self.peer_address.afi() == self.local_address.afi()
        &&& !as4 ==> self.peer_as <= 0xFFFF && self.local_as <= 0xFFFF
    }

    /// The bytes that stand for the value.
    pub open spec fn wire(self, as4: bool) -> Seq<u8> {
        asn_bytes(self.peer_as, as4) + asn_bytes(self.local_as, as4) + u16_bytes(self.interface)
            + u16_bytes(self.peer_address.afi().code()) + self.peer_address.wire()
            + self.local_address.wire()
    }

    /// What is decoded can stand on the wire.
    pub proof fn lemma_decode_wf(s: Seq<u8>, at: int, as4: bool)
        requires
            Peering::decode(s, at, as4) is Ok,
        ensures
            Peering::decode(s, at, as4)->Ok_0.0.wf(as4),
            Peering::decode(s, at, as4)->Ok_0.1 == Peering::decode(s, at, as4)->Ok_0.0.len(as4),
    {
    }

    /// Decoding the bytes of a value gives the value, and takes those bytes.
    pub proof fn lemma_decode_wire(self, s: Seq<u8>, at: int, as4: bool)
        requires
            self.wf(as4),
            holds(s, at, self.wire(as4)),
        ensures
            self.wire(as4).len() == self.len(as4),
            Peering::decode(s, at, as4) == taken(self, self.len(as4) as nat),
    {
        lemma_int_bytes_len();
        let w = asn_width(as4);
        let part1 = asn_bytes(self.peer_as, as4);
        let part2 = asn_bytes(self.local_as, as4);
        let part3 = u16_bytes(self.interface);
        let part4 = u16_bytes(self.peer_address.afi().code());
        let part5 = self.peer_address.wire();
        let part6 = self.local_address.wire();
        lemma_holds_split(s, at, part1 + part2 + part3 + part4 + part5, part6);
        lemma_holds_split(s, at, part1 + part2 + part3 + part4, part5);
        lemma_holds_split(s, at, part1 + part2 + part3, part4);
        lemma_holds_split(s, at, part1 + part2, part3);
        lemma_holds_split(s, at, part1, part2);
        if as4 {
            lemma_be_u32_holds(s, at, self.peer_as);
            lemma_be_u32_holds(s, at + w, self.local_as);
        } else {
            lemma_be_u16_holds(s, at, self.peer_as as u16);
            lemma_be_u16_holds(s, at + w, self.local_as as u16);
        }
        lemma_be_u16_holds(s, at + 2 * w, self.interface);
        lemma_be_u16_holds(s, at + 2 * w + 2, self.peer_address.afi().code());
        self.peer_address.lemma_at_wire(s, at + 2 * w + 4);
        self.local_address.lemma_at_wire(s, at + 2 * w + 4 + self.peer_address.afi().width());
    }

    /// Reads the opening fields of a BGP4MP payload.
    pub fn parse(stream: &mut ByteStream, as4: bool) -> (r: Result<Peering, DecodeError>)
        ensures
            decoded(
                r,
                Peering::decode(old(stream).bytes(), old(stream).position() as int, as4),
                old(stream),
                final(stream),
            ),
    {
        let peer_as = if as4 {
            stream.read_u32()?
        } else {
            stream.read_u16()? as u32
        };
        let local_as = if as4 {
            stream.read_u32()?
        } else {
            stream.read_u16()? as u32
        };
        let interface = stream.read_u16()?;
        let code = stream.read_u16()?;
        let afi = AFI::from(code)?;
        let peer_address = IpAddress::parse(afi, stream)?;
        let local_address = IpAddress::parse(afi, stream)?;
        Ok(Peering { peer_as, local_as, interface, peer_address, local_address })
    }
}

/// A change of state of the BGP finite state machine, with 16-bit AS numbers.
#[derive(Clone, Copy, Debug, PartialEq, Eq, Structural)]
#[allow(non_camel_case_types)]
pub struct STATE_CHANGE {
    /// The AS number of the peer.
    pub peer_as: u16,
    /// The AS number of the collector.
    pub local_as: u16,
    /// The interface index.
    pub interface: u16,
    /// The address of the peer.
    pub peer_address: IpAddress,
    /// The address of the collector.
    pub local_address: IpAddress,
    /// The state that was left.
    pub old_state: u16,
    /// The state that was entered.
    pub new_state: u16,
}

impl View for STATE_CHANGE {
    type V = STATE_CHANGE;

    open spec fn view(&self) -> STATE_CHANGE {
        *self
    }
}

impl STATE_CHANGE {
    /// The opening fields of the payload.
    pub open spec fn peering(self) -> Peering {
        Peering {
            peer_as: self.peer_as as u32,
            local_as: self.local_as as u32,
            interface: self.interface,
            peer_address: self.peer_address,
            local_address: self.local_address,
        }
    }

    /// What the bytes at `at` stand for: the opening fields, then the two
    /// states.
    pub open spec fn decode(s: Seq<u8>, at: int) -> Decoding<STATE_CHANGE> {
        match Peering::decode(s, at, false) {
            Err(e) => Err(e),
            Ok((p, n)) => if !available(s, at + n, 4) {
                truncated(s, at)
            } else {
                Ok(
                    (
                        STATE_CHANGE {
                            peer_as: p.peer_as as u16,
                            local_as: p.local_as as u16,
                            interface: p.interface,
                            peer_address: p.peer_address,
                            local_address: p.local_address,
                            old_state: be_u16(s, at + n),
                            new_state: be_u16(s, at + n + 2),
                        },
                        n + 4,
                    ),
                )
            },
        }
    }

    /// Whether the value can stand on the wire: both addresses are of one
    /// family.
    pub open spec fn wf(self) -> bool {
        self.peering().wf(false)
    }

    /// The bytes that stand for the value.
    pub open spec fn wire(self) -> Seq<u8> {
        self.peering().wire(false) + u16_bytes(self.old_state) + u16_bytes(self.new_state)
    }

    /// What is decoded can stand on the wire.
    pub proof fn lemma_decode_wf(s: Seq<u8>, at: int)
        ensures
            STATE_CHANGE::decode(s, at) matches Ok((v, n)) ==> v.wf(),
    {
    }

    /// Decoding the bytes of a value gives the value, and takes those bytes.
    pub proof fn lemma_decode_wire(self, s: Seq<u8>, at: int)
        requires
            self.wf(),
            holds(s, at, self.wire()),
        ensures
            STATE_CHANGE::decode(s, at) == taken(self, self.wire().len()),
    {
        lemma_int_bytes_len();
        let p = self.peering();
        let n = p.wire(false).len() as int;
        lemma_holds_split(
            s,
            at,
            p.wire(false) + u16_bytes(self.old_state),
            u16_bytes(self.new_state),
        );
        lemma_holds_split(s, at, p.wire(false), u16_bytes(self.old_state));
        p.lemma_decode_wire(s, at, false);
        lemma_be_u16_holds(s, at + n, self.old_state);
        lemma_be_u16_holds(s, at + n + 2, self.new_state);
    }

    /// Reads a state change with 16-bit AS numbers.
    pub fn parse(stream: &mut ByteStream) -> (r: Result<STATE_CHANGE, DecodeError>)
        ensures
            decoded(
                r,
                STATE_CHANGE::decode(old(stream).bytes(), old(stream).position() as int),
                old(stream),
                final(stream),
            ),
    {
        let p = Peering::parse(stream, false)?;
        let old_state = stream.read_u16()?;
        let new_state = stream.read_u16()?;
        Ok(
            STATE_CHANGE {
                peer_as: p.peer_as as u16,
                local_as: p.local_as as u16,
                interface: p.interface,
                peer_address: p.peer_address,
                local_address: p.local_address,
                old_state,
                new_state,
            },
        )
    }
}

/// A BGP message (UPDATE, OPEN, NOTIFICATION or KEEPALIVE) with 16-bit AS
/// numbers. The message itself is opaque here.
#[derive(Debug, PartialEq, Eq)]
#[allow(non_camel_case_types)]
pub struct MESSAGE {
    /// The AS number of the peer.
    pub peer_as: u16,
    /// The AS number of the collector.
    pub local_as: u16,
    /// The interface index.
    pub interface: u16,
    /// The address of the peer.
    pub peer_address: IpAddress,
    /// The address of the collector.
    pub local_address: IpAddress,
    /// The message as it was received.
    pub message: Vec<u8>,
}

/// What a [`MESSAGE`] holds, as mathematical values.
pub ghost struct MessageView {
    pub peer_as: u16,
    pub local_as: u16,
    pub interface: u16,
    pub peer_address: IpAddress,
    pub local_address: IpAddress,
    pub message: Seq<u8>,
}

impl View for MESSAGE {
    type V = MessageView;

    open spec fn view(&self) -> MessageView {
        MessageView {
            peer_as: self.peer_as,
            local_as: self.local_as,
            interface: self.interface,
            peer_address: self.peer_address,
            local_address: self.local_address,
            message: self.message@,
        }
    }
}

impl MessageView {
    /// The opening fields of the payload.
    pub open spec fn peering(self) -> Peering {
        Peering {
            peer_as: self.peer_as as u32,
            local_as: self.local_as as u32,
            interface: self.interface,
            peer_address: self.peer_address,
            local_address: self.local_address,
        }
    }

    /// Whether the value can stand on the wire under a header of the given
    /// length: both addresses are of one family, and the length is that of
    /// the opening fields and the message together.
    pub open spec fn wf(self, length: u32) -> bool {
        &&& self.peering().wf(false)
        &&& length == self.peering().len(false) + self.message.len()
    }

    /// The bytes that stand for the value.
    pub open spec fn wire(self) -> Seq<u8> {
        self.peering().wire(false) + self.message
    }

    /// Decoding the bytes of a value gives the value, and takes those bytes.
    pub proof fn lemma_decode_wire(self, s: Seq<u8>, at: int, length: u32)
        requires
            self.wf(length),
            holds(s, at, self.wire()),
        ensures
            MESSAGE::decode(s, at, length) == taken(self, self.wire().len()),
    {
        let p = self.peering();
        lemma_holds_split(s, at, p.wire(false), self.message);
        p.lemma_decode_wire(s, at, false);
    }
}

impl MESSAGE {
    /// What the bytes at `at` stand for under a header of the given length:
    /// the opening fields, then a message that takes what is left of the
    /// length. A length smaller than the opening fields is an error.
    pub open spec fn decode(s: Seq<u8>, at: int, length: u32) -> Decoding<MessageView> {
        match Peering::decode(s, at, false) {
            Err(e) => Err(e),
            Ok((p, n)) => if length < n {
                failed(DecodeError::InvalidLength(length), n as int)
            } else if !available(s, at + n, length - n) {
                truncated(s, at)
            } else {
                Ok(
                    (
                        MessageView {
                            peer_as: p.peer_as as u16,
                            local_as: p.local_as as u16,
                            interface: p.interface,
                            peer_address: p.peer_address,
                            local_address: p.local_address,
                            message: s.subrange(at + n, at + length),
                        },
                        length as nat,
                    ),
                )
            },
        }
    }

    /// What is decoded can stand on the wire.
    pub proof fn lemma_decode_wf(s: Seq<u8>, at: int, length: u32)
        ensures
            MESSAGE::decode(s, at, length) matches Ok((v, n)) ==> v.wf(length),
    {
    }

    /// Reads a message with 16-bit AS numbers. The length of the message is
    /// not on the wire: it is what the header's length leaves after the
    /// 8 bytes of fixed fields and the two addresses.
    pub fn parse(header: &Header, stream: &mut ByteStream) -> (r: Result<MESSAGE, DecodeError>)
        ensures
            decoded(
                r,
                MESSAGE::decode(
                    old(stream).bytes(),
                    old(stream).position() as int,
                    header.length,
                ),
                old(stream),
                final(stream),
            ),
            r matches Ok(m) ==> m.message@.len() == header.length - 8 - 2
                * m.peer_address.afi().width(),
    {
        let p = Peering::parse(stream, false)?;
        let width: u32 = match p.peer_address {
            IpAddress::V4(_) => 4,
            IpAddress::V6(_) => 16,
        };
        let prefix: u32 = 8 + 2 * width;
        if header.length < prefix {
            return Err(DecodeError::InvalidLength(header.length));
        }
        let message = stream.read_bytes((header.length - prefix) as usize)?;
        Ok(
            MESSAGE {
                peer_as: p.peer_as as u16,
                local_as: p.local_as as u16,
                interface: p.interface,
                peer_address: p.peer_address,
                local_address: p.local_address,
                message,
            },
        )
    }
}

/// A BGP message (UPDATE, OPEN, NOTIFICATION or KEEPALIVE) with 32-bit AS
/// numbers. The message itself is opaque here.
#[derive(Debug, PartialEq, Eq)]
#[allow(non_camel_case_types)]
pub struct MESSAGE_AS4 {
    /// The AS number of the peer.
    pub peer_as: u32,
    /// The AS number of the collector.
    pub local_as: u32,
    /// The interface index.
    pub interface: u16,
    /// The address of the peer.
    pub peer_address: IpAddress,
    /// The address of the collector.
    pub local_address: IpAddress,
    /// The message as it was received.
    pub message: Vec<u8>,
}

/// What a [`MESSAGE_AS4`] holds, as mathematical values.
pub ghost struct MessageAs4View {
    pub peer_as: u32,
    pub local_as: u32,
    pub interface: u16,
    pub peer_address: IpAddress,
    pub local_address: IpAddress,
    pub message: Seq<u8>,
}

impl View for MESSAGE_AS4 {
    type V = MessageAs4View;

    open spec fn view(&self) -> MessageAs4View {
        MessageAs4View {
            peer_as: self.peer_as,
            local_as: self.local_as,
            interface: self.interface,
            peer_address: self.peer_address,
            local_address: self.local_address,
            message: self.message@,
        }
    }
}

impl MessageAs4View {
    /// The opening fields of the payload.
    pub open spec fn peering(self) -> Peering {
        Peering {
            peer_as: self.peer_as,
            local_as: self.local_as,
            interface: self.interface,
            peer_address: self.peer_address,
            local_address: self.local_address,
        }
    }

    /// Whether the value can stand on the wire under a header of the given
    /// length: both addresses are of one family, and the length is that of
    /// the opening fields and the message together.
    pub open spec fn wf(self, length: u32) -> bool {
        &&& self.peering().wf(true)
        &&& length == self.peering().len(true) + self.message.len()
    }

    /// The bytes that stand for the value.
    pub open spec fn wire(self) -> Seq<u8> {
        self.peering().wire(true) + self.message
    }

    /// Decoding the bytes of a value gives the value, and takes those bytes.
    pub proof fn lemma_decode_wire(self, s: Seq<u8>, at: int, length: u32)
        requires
            self.wf(length),
            holds(s, at, self.wire()),
        ensures
            MESSAGE_AS4::decode(s, at, length) == taken(self, self.wire().len()),
    {
        let p = self.peering();
        lemma_holds_split(s, at, p.wire(true), self.message);
        p.lemma_decode_wire(s, at, true);
    }
}

impl MESSAGE_AS4 {
    /// What the bytes at `at` stand for under a header of the given length:
    /// the opening fields, then a message that takes what is left of the
    /// length. A length smaller than the opening fields is an error.
    pub open spec fn decode(s: Seq<u8>, at: int, length: u32) -> Decoding<MessageAs4View> {
        match Peering::decode(s, at, true) {
            Err(e) => Err(e),
            Ok((p, n)) => if length < n {
                failed(DecodeError::InvalidLength(length), n as int)
            } else if !available(s, at + n, length - n) {
                truncated(s, at)
            } else {
                Ok(
                    (
                        MessageAs4View {
                            peer_as: p.peer_as,
                            local_as: p.local_as,
                            interface: p.interface,
                            peer_address: p.peer_address,
                            local_address: p.local_address,
                            message: s.subrange(at + n, at + length),
                        },
                        length as nat,
                    ),
                )
            },
        }
    }

    /// What is decoded can stand on the wire.
    pub proof fn lemma_decode_wf(s: Seq<u8>, at: int, length: u32)
        ensures
            MESSAGE_AS4::decode(s, at, length) matches Ok((v, n)) ==> v.wf(length),
    {
    }

    /// Reads a message with 32-bit AS numbers. The length of the message is
    /// not on the wire: it is what the header's length leaves after the
    /// 12 bytes of fixed fields and the two addresses.
    pub fn parse(header: &Header, stream: &mut ByteStream) -> (r: Result<MESSAGE_AS4, DecodeError>)
        ensures
            decoded(
                r,
                MESSAGE_AS4::decode(
                    old(stream).bytes(),
                    old(stream).position() as int,
                    header.length,
                ),
                old(stream),
                final(stream),
            ),
            r matches Ok(m) ==> m.message@.len() == header.length - 12 - 2
                * m.peer_address.afi().width(),
    {
        let p = Peering::parse(stream, true)?;
        let width: u32 = match p.peer_address {
            IpAddress::V4(_) => 4,
            IpAddress::V6(_) => 16,
        };
        let prefix: u32 = 12 + 2 * width;
        if header.length < prefix {
            return Err(DecodeError::InvalidLength(header.length));
        }
        let message = stream.read_bytes((header.length - prefix) as usize)?;
        Ok(
            MESSAGE_AS4 {
                peer_as: p.peer_as,
                local_as: p.local_as,
                interface: p.interface,
                peer_address: p.peer_address,
                local_address: p.local_address,
                message,
            },
        )
    }
}

/// A change of state of the BGP finite state machine, with 32-bit AS numbers.
#[derive(Clone, Copy, Debug, PartialEq, Eq, Structural)]
#[allow(non_camel_case_types)]
pub struct STATE_CHANGE_AS4 {
    /// The AS number of the peer.
    pub peer_as: u32,
    /// The AS number of the collector.
    pub local_as: u32,
    /// The interface index.
    pub interface: u16,
    /// The address of the peer.
    pub peer_address: IpAddress,
    /// The address of the collector.
    pub local_address: IpAddress,
    /// The state that was left.
    pub old_state: u16,
    /// The state that was entered.
    pub new_state: u16,
}

impl View for STATE_CHANGE_AS4 {
    type V = STATE_CHANGE_AS4;

    open spec fn view(&self) -> STATE_CHANGE_AS4 {
        *self
    }
}

impl STATE_CHANGE_AS4 {
    /// The opening fields of the payload.
    pub open spec fn peering(self) -> Peering {
        Peering {
            peer_as: self.peer_as,
            local_as: self.local_as,
            interface: self.interface,
            peer_address: self.peer_address,
            local_address: self.local_address,
        }
    }

    /// What the bytes at `at` stand for: the opening fields, then the two
    /// states.
    pub open spec fn decode(s: Seq<u8>, at: int) -> Decoding<STATE_CHANGE_AS4> {
        match Peering::decode(s, at, true) {
            Err(e) => Err(e),
            Ok((p, n)) => if !available(s, at + n, 4) {
                truncated(s, at)
            } else {
                Ok(
                    (
                        STATE_CHANGE_AS4 {
                            peer_as: p.peer_as,
                            local_as: p.local_as,
                            interface: p.interface,
                            peer_address: p.peer_address,
                            local_address: p.local_address,
                            old_state: be_u16(s, at + n),
                            new_state: be_u16(s, at + n + 2),
                        },
                        n + 4,
                    ),
                )
            },
        }
    }

    /// Whether the value can stand on the wire: both addresses are of one
    /// family.
    pub open spec fn wf(self) -> bool {
        self.peering().wf(true)
    }

    /// The bytes that stand for the value.
    pub open spec fn wire(self) -> Seq<u8> {
        self.peering().wire(true) + u16_bytes(self.old_state) + u16_bytes(self.new_state)
    }

    /// What is decoded can stand on the wire.
    pub proof fn lemma_decode_wf(s: Seq<u8>, at: int)
        ensures
            STATE_CHANGE_AS4::decode(s, at) matches Ok((v, n)) ==> v.wf(),
    {
    }

    /// Decoding the bytes of a value gives the value, and takes those bytes.
    pub proof fn lemma_decode_wire(self, s: Seq<u8>, at: int)
        requires
            self.wf(),
            holds(s, at, self.wire()),
        ensures
            STATE_CHANGE_AS4::decode(s, at) == taken(self, self.wire().len()),
    {
        lemma_int_bytes_len();
        let p = self.peering();
        let n = p.wire(true).len() as int;
        lemma_holds_split(
            s,
            at,
            p.wire(true) + u16_bytes(self.old_state),
            u16_bytes(self.new_state),
        );
        lemma_holds_split(s, at, p.wire(true), u16_bytes(self.old_state));
        p.lemma_decode_wire(s, at, true);
        lemma_be_u16_holds(s, at + n, self.old_state);
        lemma_be_u16_holds(s, at + n + 2, self.new_state);
    }

    /// Reads a state change with 32-bit AS numbers.
    pub fn parse(stream: &mut ByteStream) -> (r: Result<STATE_CHANGE_AS4, DecodeError>)
        ensures
            decoded(
                r,
                STATE_CHANGE_AS4::decode(old(stream).bytes(), old(stream).position() as int),
                old(stream),
                final(stream),
            ),
    {
        let p = Peering::parse(stream, true)?;
        let old_state = stream.read_u16()?;
        let new_state = stream.read_u16()?;
        Ok(
            STATE_CHANGE_AS4 {
                peer_as: p.peer_as,
                local_as: p.local_as,
                interface: p.interface,
                peer_address: p.peer_address,
                local_address: p.local_address,
                old_state,
                new_state,
            },
        )
    }
}

/// Deprecated: names a file that holds a snapshot of BGP4MP entries.
#[derive(Debug, PartialEq, Eq)]
#[allow(non_camel_case_types)]
pub struct SNAPSHOT {
    /// The view that the snapshot was taken of.
    pub view_number: u16,
    /// The name of the file, without the NUL that ends it on the wire.
    pub filename: Vec<u8>,
}

/// What a [`SNAPSHOT`] holds, as mathematical values.
pub ghost struct SnapshotView {
    pub view_number: u16,
    pub filename: Seq<u8>,
}

impl View for SNAPSHOT {
    type V = SnapshotView;

    open spec fn view(&self) -> SnapshotView {
        SnapshotView { view_number: self.view_number, filename: self.filename@ }
    }
}

impl SnapshotView {
    /// Whether the value can stand on the wire: the name holds no NUL.
    pub open spec fn wf(self) -> bool {
        nul_free(self.filename)
    }

    /// The bytes that stand for the value: the view number, the name, a NUL.
    pub open spec fn wire(self) -> Seq<u8> {
        u16_bytes(self.view_number) + self.filename + seq![0u8]
    }

    /// Decoding the bytes of a value gives the value, and takes those bytes.
    pub proof fn lemma_decode_wire(self, s: Seq<u8>, at: int)
        requires
            self.wf(),
            holds(s, at, self.wire()),
        ensures
            SNAPSHOT::decode(s, at) == taken(self, self.wire().len()),
    {
        let end = seq![0u8];
        lemma_holds_split(s, at, u16_bytes(self.view_number) + self.filename, end);
        lemma_holds_split(s, at, u16_bytes(self.view_number), self.filename);
        lemma_be_u16_holds(s, at, self.view_number);
        assert(s[at + 2 + self.filename.len()] == 0) by {
            assert(s.subrange(at + 2 + self.filename.len(), at + 2 + self.filename.len() + 1)[0]
                == end[0]);
        }
        lemma_nul_distance_some(s, at + 2, self.filename.len());
    }
}

impl SNAPSHOT {
    /// What the bytes at `at` stand for: a view number, then a name that
    /// runs up to the first NUL.
    pub open spec fn decode(s: Seq<u8>, at: int) -> Decoding<SnapshotView> {
        if !available(s, at, 2) {
            truncated(s, at)
        } else {
            match nul_distance(s, at + 2) {
                None => truncated(s, at),
                Some(n) => Ok(
                    (
                        SnapshotView {
                            view_number: be_u16(s, at),
                            filename: s.subrange(at + 2, at + 2 + n),
                        },
                        2 + n + 1,
                    ),
                ),
            }
        }
    }

    /// What is decoded can stand on the wire.
    pub proof fn lemma_decode_wf(s: Seq<u8>, at: int)
        ensures
            SNAPSHOT::decode(s, at) matches Ok((v, n)) ==> v.wf(),
    {
        if SNAPSHOT::decode(s, at) is Ok {
            lemma_nul_distance_is_first(s, at + 2);
        }
    }

    /// Reads a snapshot record.
    pub fn parse(stream: &mut ByteStream) -> (r: Result<SNAPSHOT, DecodeError>)
        ensures
            decoded(
                r,
                SNAPSHOT::decode(old(stream).bytes(), old(stream).position() as int),
                old(stream),
                final(stream),
            ),
    {
        let view_number = stream.read_u16()?;
        let filename = stream.read_until_nul()?;
        Ok(SNAPSHOT { view_number, filename })
    }
}

/// A routing table entry in the form that older files hold; superseded by the
/// TABLE_DUMP_V2 records.
#[derive(Debug, PartialEq, Eq)]
#[allow(non_camel_case_types)]
pub struct ENTRY {
    /// The AS number of the peer.
    pub peer_as: u16,
    /// The AS number of the collector.
    pub local_as: u16,
    /// The interface index.
    pub interface: u16,
    /// The address of the peer.
    pub peer_address: IpAddress,
    /// The address of the collector.
    pub local_address: IpAddress,
    /// The view that the entry belongs to.
    pub view_number: u16,
    /// Status bits.
    pub status: u16,
    /// The time at which the route last changed.
    pub time_last_change: u32,
    /// The next hop of the route.
    pub next_hop: IpAddress,
    /// The address family code of the prefix, as it stands on the wire.
    pub afi: u16,
    /// The subsequent address family code of the prefix.
    pub safi: u8,
    /// The length of the prefix in bits.
    pub prefix_length: u8,
    /// The prefix, in as many bytes as hold its bits.
    pub prefix: Vec<u8>,
    /// The path attributes of the route, undecoded.
    pub attributes: Vec<u8>,
}

/// What an [`ENTRY`] holds, as mathematical values.
pub ghost struct EntryView {
    pub peer_as: u16,
    pub local_as: u16,
    pub interface: u16,
    pub peer_address: IpAddress,
    pub local_address: IpAddress,
    pub view_number: u16,
    pub status: u16,
    pub time_last_change: u32,
    pub next_hop: IpAddress,
    pub afi: u16,
    pub safi: u8,
    pub prefix_length: u8,
    pub prefix: Seq<u8>,
    pub attributes: Seq<u8>,
}

impl View for ENTRY {
    type V = EntryView;

    open spec fn view(&self) -> EntryView {
        EntryView {
            peer_as: self.peer_as,
            local_as: self.local_as,
            interface: self.interface,
            peer_address: self.peer_address,
            local_address: self.local_address,
            view_number: self.view_number,
            status: self.status,
            time_last_change: self.time_last_change,
            next_hop: self.next_hop,
            afi: self.afi,
            safi: self.safi,
            prefix_length: self.prefix_length,
            prefix: self.prefix@,
            attributes: self.attributes@,
        }
    }
}

/// The family of a next hop of `len` bytes: 4 is IPv4, 16 is IPv6.
pub open spec fn hop_family(len: u8) -> Option<AFI> {
    if len == 4 {
        Some(AFI::IPV4)
    } else if len == 16 {
        Some(AFI::IPV6)
    } else {
        None
    }
}

impl EntryView {
    /// The opening fields of the payload.
    pub open spec fn peering(self) -> Peering {
        Peering {
            peer_as: self.peer_as as u32,
            local_as: self.local_as as u32,
            interface: self.interface,
            peer_address: self.peer_address,
            local_address: self.local_address,
        }
    }

    /// Whether the value can stand on the wire: the peer's and the
    /// collector's address are of one family, the prefix has the bytes that
    /// hold its bits, and the attributes' length fits in 16 bits.
    pub open spec fn wf(self) -> bool {
        &&& self.peering().wf(false)
        &&& self.prefix.len() == prefix_bytes(self.prefix_length)
        &&& self.attributes.len() <= 0xFFFF
    }

    /// The fixed fields between the addresses and the next hop.
    pub open spec fn wire_fixed(self) -> Seq<u8> {
        u16_bytes(self.view_number) + u16_bytes(self.status) + u32_bytes(self.time_last_change)
            + u16_bytes(self.afi) + seq![self.safi]
    }

    /// The next hop, behind its length.
    pub open spec fn wire_hop(self) -> Seq<u8> {
        seq![self.next_hop.afi().width() as u8] + self.next_hop.wire()
    }

    /// The prefix and the attributes, each behind its length.
    pub open spec fn wire_route(self) -> Seq<u8> {
        seq![self.prefix_length] + self.prefix + u16_bytes(self.attributes.len() as u16)
            + self.attributes
    }

    /// The bytes that stand for the value.
    pub open spec fn wire(self) -> Seq<u8> {
        self.peering().wire(false) + self.wire_fixed() + self.wire_hop() + self.wire_route()
    }

    /// Decoding the bytes of a value gives the value, and takes those bytes.
    pub proof fn lemma_decode_wire(self, s: Seq<u8>, at: int)
        requires
            self.wf(),
            holds(s, at, self.wire()),
        ensures
            ENTRY::decode(s, at) == taken(self, self.wire().len()),
    {
        lemma_int_bytes_len();
        let p = self.peering();
        let n = p.wire(false).len() as int;
        lemma_holds_split(
            s,
            at,
            p.wire(false) + self.wire_fixed() + self.wire_hop(),
            self.wire_route(),
        );
        lemma_holds_split(s, at, p.wire(false) + self.wire_fixed(), self.wire_hop());
        lemma_holds_split(s, at, p.wire(false), self.wire_fixed());
        p.lemma_decode_wire(s, at, false);
        let a = at + n;
        let f1 = u16_bytes(self.view_number);
        let f2 = u16_bytes(self.status);
        let f3 = u32_bytes(self.time_last_change);
        let f4 = u16_bytes(self.afi);
        let f5 = seq![self.safi];
        lemma_holds_split(s, a, f1 + f2 + f3 + f4, f5);
        lemma_holds_split(s, a, f1 + f2 + f3, f4);
        lemma_holds_split(s, a, f1 + f2, f3);
        lemma_holds_split(s, a, f1, f2);
        lemma_be_u16_holds(s, a, self.view_number);
        lemma_be_u16_holds(s, a + 2, self.status);
        lemma_be_u32_holds(s, a + 4, self.time_last_change);
        lemma_be_u16_holds(s, a + 8, self.afi);
        lemma_u8_holds(s, a + 10, self.safi);
        let w = self.next_hop.afi().width();
        lemma_holds_split(s, a + 11, seq![w as u8], self.next_hop.wire());
        lemma_u8_holds(s, a + 11, w as u8);
        self.next_hop.lemma_at_wire(s, a + 12);
        let b = a + 12 + w;
        let r1 = seq![self.prefix_length];
        let r3 = u16_bytes(self.attributes.len() as u16);
        lemma_holds_split(s, b, r1 + self.prefix + r3, self.attributes);
        lemma_holds_split(s, b, r1 + self.prefix, r3);
        lemma_holds_split(s, b, r1, self.prefix);
        lemma_u8_holds(s, b, self.prefix_length);
        lemma_be_u16_holds(s, b + 1 + self.prefix.len(), self.attributes.len() as u16);
    }
}

impl ENTRY {
    /// What the bytes at `at` stand for: the opening fields; view number,
    /// status, time of the last change, and the prefix's family codes; the
    /// next hop behind its length in bytes, which is 4 or 16; the prefix
    /// behind its length in bits; the attributes behind their length.
    pub open spec fn decode(s: Seq<u8>, at: int) -> Decoding<EntryView> {
        match Peering::decode(s, at, false) {
            Err(e) => Err(e),
            Ok((p, n)) => {
                let a = at + n;
                if !available(s, a, 12) {
                    truncated(s, at)
                } else {
                    match hop_family(s[a + 11]) {
                        None => failed(DecodeError::InvalidNextHopLength(s[a + 11]), a - at + 12),
                        Some(hop) => {
                            let b = a + 12 + hop.width();
                            if !available(s, a + 12, hop.width() + 1) {
                                truncated(s, at)
                            } else if !available(s, b + 1, prefix_bytes(s[b]) + 2) {
                                truncated(s, at)
                            } else {
                                let c = b + 1 + prefix_bytes(s[b]);
                                if !available(s, c + 2, be_u16(s, c) as int) {
                                    truncated(s, at)
                                } else {
                                    Ok(
                                        (
                                            EntryView {
                                                peer_as: p.peer_as as u16,
                                                local_as: p.local_as as u16,
                                                interface: p.interface,
                                                peer_address: p.peer_address,
                                                local_address: p.local_address,
                                                view_number: be_u16(s, a),
                                                status: be_u16(s, a + 2),
                                                time_last_change: be_u32(s, a + 4),
                                                next_hop: IpAddress::at(s, a + 12, hop),
                                                afi: be_u16(s, a + 8),
                                                safi: s[a + 10],
                                                prefix_length: s[b],
                                                prefix: s.subrange(b + 1, c),
                                                attributes: s.subrange(c + 2, c + 2 + be_u16(s, c)),
                                            },
                                            (c + 2 + be_u16(s, c) - at) as nat,
                                        ),
                                    )
                                }
                            }
                        },
                    }
                }
            },
        }
    }

    /// What is decoded can stand on the wire.
    pub proof fn lemma_decode_wf(s: Seq<u8>, at: int)
        ensures
            ENTRY::decode(s, at) matches Ok((v, n)) ==> v.wf(),
    {
    }

    /// Reads a legacy routing table entry. A next hop whose length is
    /// neither 4 nor 16 is refused right behind the length byte, before a
    /// byte of the next hop is read.
    pub fn parse(stream: &mut ByteStream) -> (r: Result<ENTRY, DecodeError>)
        ensures
            decoded(
                r,
                ENTRY::decode(old(stream).bytes(), old(stream).position() as int),
                old(stream),
                final(stream),
            ),
            r matches Err(DecodeError::InvalidNextHopLength(_)) ==> {
                &&& Peering::decode(
                    old(stream).bytes(),
                    old(stream).position() as int,
                    false,
                ) matches Ok((_, n))
                &&& final(stream).position() == old(stream).position() + n + 12
            },
    {
        let p = Peering::parse(stream, false)?;
        let view_number = stream.read_u16()?;
        let status = stream.read_u16()?;
        let time_last_change = stream.read_u32()?;
        let afi = stream.read_u16()?;
        let safi = stream.read_u8()?;
        let hop_length = stream.read_u8()?;
        let next_hop = match hop_length {
            4 => IpAddress::parse(AFI::IPV4, stream)?,
            16 => IpAddress::parse(AFI::IPV6, stream)?,
            x => {
                return Err(DecodeError::InvalidNextHopLength(x));
            },
        };
        let prefix_length = stream.read_u8()?;
        let prefix = stream.read_bytes((prefix_length as usize + 7) / 8)?;
        let attribute_length = stream.read_u16()?;
        let attributes = stream.read_bytes(attribute_length as usize)?;
        Ok(
            ENTRY {
                peer_as: p.peer_as as u16,
                local_as: p.local_as as u16,
                interface: p.interface,
                peer_address: p.peer_address,
                local_address: p.local_address,
                view_number,
                status,
                time_last_change,
                next_hop,
                afi,
                safi,
                prefix_length,
                prefix,
                attributes,
            },
        )
    }
}

/// The subtypes of the BGP4MP record type.
#[derive(Debug, PartialEq, Eq)]
#[allow(non_camel_case_types)]
pub enum BGP4MP {
    /// A change of state, with 16-bit AS numbers.
    STATE_CHANGE(STATE_CHANGE),
    /// A message from a peer, with 16-bit AS numbers.
    MESSAGE(MESSAGE),
    /// A routing table entry in the legacy form.
    ENTRY(ENTRY),
    /// Deprecated: the name of a file of entries.
    SNAPSHOT(SNAPSHOT),
    /// A message from a peer, with 32-bit AS numbers.
    MESSAGE_AS4(MESSAGE_AS4),
    /// A change of state, with 32-bit AS numbers.
    STATE_CHANGE_AS4(STATE_CHANGE_AS4),
    /// A message that the collector itself sent, with 16-bit AS numbers.
    MESSAGE_LOCAL(MESSAGE),
    /// A message that the collector itself sent, with 32-bit AS numbers.
    MESSAGE_AS4_LOCAL(MESSAGE_AS4),
    /// A message from a peer that may advertise several paths (RFC 8050), with
    /// 16-bit AS numbers.
    MESSAGE_ADDPATH(MESSAGE),
    /// A message from a peer that may advertise several paths, with 32-bit AS
    /// numbers.
    MESSAGE_AS4_ADDPATH(MESSAGE_AS4),
    /// A message of the collector that may advertise several paths, with 16-bit
    /// AS numbers.
    MESSAGE_LOCAL_ADDPATH(MESSAGE),
    /// A message of the collector that may advertise several paths, with 32-bit
    /// AS numbers.
    MESSAGE_AS4_LOCAL_ADDPATH(MESSAGE_AS4),
}

/// What a [`BGP4MP`] holds, as mathematical values.
#[allow(non_camel_case_types)]
pub ghost enum Bgp4mpView {
    STATE_CHANGE(STATE_CHANGE),
    MESSAGE(MessageView),
    ENTRY(EntryView),
    SNAPSHOT(SnapshotView),
    MESSAGE_AS4(MessageAs4View),
    STATE_CHANGE_AS4(STATE_CHANGE_AS4),
    MESSAGE_LOCAL(MessageView),
    MESSAGE_AS4_LOCAL(MessageAs4View),
    MESSAGE_ADDPATH(MessageView),
    MESSAGE_AS4_ADDPATH(MessageAs4View),
    MESSAGE_LOCAL_ADDPATH(MessageView),
    MESSAGE_AS4_LOCAL_ADDPATH(MessageAs4View),
}

impl View for BGP4MP {
    type V = Bgp4mpView;

    open spec fn view(&self) -> Bgp4mpView {
        match self {
            BGP4MP::STATE_CHANGE(x) => Bgp4mpView::STATE_CHANGE(x@),
            BGP4MP::MESSAGE(x) => Bgp4mpView::MESSAGE(x@),
            BGP4MP::ENTRY(x) => Bgp4mpView::ENTRY(x@),
            BGP4MP::SNAPSHOT(x) => Bgp4mpView::SNAPSHOT(x@),
            BGP4MP::MESSAGE_AS4(x) => Bgp4mpView::MESSAGE_AS4(x@),
            BGP4MP::STATE_CHANGE_AS4(x) => Bgp4mpView::STATE_CHANGE_AS4(x@),
            BGP4MP::MESSAGE_LOCAL(x) => Bgp4mpView::MESSAGE_LOCAL(x@),
            BGP4MP::MESSAGE_AS4_LOCAL(x) => Bgp4mpView::MESSAGE_AS4_LOCAL(x@),
            BGP4MP::MESSAGE_ADDPATH(x) => Bgp4mpView::MESSAGE_ADDPATH(x@),
            BGP4MP::MESSAGE_AS4_ADDPATH(x) => Bgp4mpView::MESSAGE_AS4_ADDPATH(x@),
            BGP4MP::MESSAGE_LOCAL_ADDPATH(x) => Bgp4mpView::MESSAGE_LOCAL_ADDPATH(x@),
            BGP4MP::MESSAGE_AS4_LOCAL_ADDPATH(x) => Bgp4mpView::MESSAGE_AS4_LOCAL_ADDPATH(x@),
        }
    }
}

impl Bgp4mpView {
    /// The subtype code of the variant.
    pub open spec fn sub_type(self) -> u16 {
        match self {
            Bgp4mpView::STATE_CHANGE(_) => 0,
            Bgp4mpView::MESSAGE(_) => 1,
            Bgp4mpView::ENTRY(_) => 2,
            Bgp4mpView::SNAPSHOT(_) => 3,
            Bgp4mpView::MESSAGE_AS4(_) => 4,
            Bgp4mpView::STATE_CHANGE_AS4(_) => 5,
            Bgp4mpView::MESSAGE_LOCAL(_) => 6,
            Bgp4mpView::MESSAGE_AS4_LOCAL(_) => 7,
            Bgp4mpView::MESSAGE_ADDPATH(_) => 8,
            Bgp4mpView::MESSAGE_AS4_ADDPATH(_) => 9,
            Bgp4mpView::MESSAGE_LOCAL_ADDPATH(_) => 10,
            Bgp4mpView::MESSAGE_AS4_LOCAL_ADDPATH(_) => 11,
        }
    }

    /// Whether the payload can stand on the wire under a header of the given
    /// length.
    pub open spec fn wf(self, length: u32) -> bool {
        match self {
            Bgp4mpView::STATE_CHANGE(x) => x.wf(),
            Bgp4mpView::MESSAGE(x) => x.wf(length),
            Bgp4mpView::ENTRY(x) => x.wf(),
            Bgp4mpView::SNAPSHOT(x) => x.wf(),
            Bgp4mpView::MESSAGE_AS4(x) => x.wf(length),
            Bgp4mpView::STATE_CHANGE_AS4(x) => x.wf(),
            Bgp4mpView::MESSAGE_LOCAL(x) => x.wf(length),
            Bgp4mpView::MESSAGE_AS4_LOCAL(x) => x.wf(length),
            Bgp4mpView::MESSAGE_ADDPATH(x) => x.wf(length),
            Bgp4mpView::MESSAGE_AS4_ADDPATH(x) => x.wf(length),
            Bgp4mpView::MESSAGE_LOCAL_ADDPATH(x) => x.wf(length),
            Bgp4mpView::MESSAGE_AS4_LOCAL_ADDPATH(x) => x.wf(length),
        }
    }

    /// The bytes that stand for the payload.
    pub open spec fn wire(self) -> Seq<u8> {
        match self {
            Bgp4mpView::STATE_CHANGE(x) => x.wire(),
            Bgp4mpView::MESSAGE(x) => x.wire(),
            Bgp4mpView::ENTRY(x) => x.wire(),
            Bgp4mpView::SNAPSHOT(x) => x.wire(),
            Bgp4mpView::MESSAGE_AS4(x) => x.wire(),
            Bgp4mpView::STATE_CHANGE_AS4(x) => x.wire(),
            Bgp4mpView::MESSAGE_LOCAL(x) => x.wire(),
            Bgp4mpView::MESSAGE_AS4_LOCAL(x) => x.wire(),
            Bgp4mpView::MESSAGE_ADDPATH(x) => x.wire(),
            Bgp4mpView::MESSAGE_AS4_ADDPATH(x) => x.wire(),
            Bgp4mpView::MESSAGE_LOCAL_ADDPATH(x) => x.wire(),
            Bgp4mpView::MESSAGE_AS4_LOCAL_ADDPATH(x) => x.wire(),
        }
    }

    /// Decoding the bytes of a payload, under its subtype, gives the payload,
    /// and takes those bytes.
    pub proof fn lemma_decode_wire(self, s: Seq<u8>, at: int, length: u32)
        requires
            self.wf(length),
            holds(s, at, self.wire()),
        ensures
            BGP4MP::decode(s, at, self.sub_type(), length) == taken(self, self.wire().len()),
    {
        match self {
            Bgp4mpView::STATE_CHANGE(x) => {
                x.lemma_decode_wire(s, at);
            },
            Bgp4mpView::MESSAGE(x) => {
                x.lemma_decode_wire(s, at, length);
            },
            Bgp4mpView::ENTRY(x) => {
                x.lemma_decode_wire(s, at);
            },
            Bgp4mpView::SNAPSHOT(x) => {
                x.lemma_decode_wire(s, at);
            },
            Bgp4mpView::MESSAGE_AS4(x) => {
                x.lemma_decode_wire(s, at, length);
            },
            Bgp4mpView::STATE_CHANGE_AS4(x) => {
                x.lemma_decode_wire(s, at);
            },
            Bgp4mpView::MESSAGE_LOCAL(x) => {
                x.lemma_decode_wire(s, at, length);
            },
            Bgp4mpView::MESSAGE_AS4_LOCAL(x) => {
                x.lemma_decode_wire(s, at, length);
            },
            Bgp4mpView::MESSAGE_ADDPATH(x) => {
                x.lemma_decode_wire(s, at, length);
            },
            Bgp4mpView::MESSAGE_AS4_ADDPATH(x) => {
                x.lemma_decode_wire(s, at, length);
            },
            Bgp4mpView::MESSAGE_LOCAL_ADDPATH(x) => {
                x.lemma_decode_wire(s, at, length);
            },
            Bgp4mpView::MESSAGE_AS4_LOCAL_ADDPATH(x) => {
                x.lemma_decode_wire(s, at, length);
            },
        }
    }
}

impl BGP4MP {
    /// What the bytes at `at` stand for under a header with the given subtype
    /// and length. The ADDPATH subtypes have the layout of the plain ones:
    /// what differs lies inside the opaque message.
    pub open spec fn decode(
        s: Seq<u8>,
        at: int,
        sub_type: u16,
        length: u32,
    ) -> Decoding<Bgp4mpView> {
        if sub_type == 0 {
            map_decoded(STATE_CHANGE::decode(s, at), |x: STATE_CHANGE| Bgp4mpView::STATE_CHANGE(x))
        } else if sub_type == 1 {
            map_decoded(MESSAGE::decode(s, at, length), |x: MessageView| Bgp4mpView::MESSAGE(x))
        } else if sub_type == 2 {
            map_decoded(ENTRY::decode(s, at), |x: EntryView| Bgp4mpView::ENTRY(x))
        } else if sub_type == 3 {
            map_decoded(SNAPSHOT::decode(s, at), |x: SnapshotView| Bgp4mpView::SNAPSHOT(x))
        } else if sub_type == 4 {
            map_decoded(
                MESSAGE_AS4::decode(s, at, length),
                |x: MessageAs4View| Bgp4mpView::MESSAGE_AS4(x),
            )
        } else if sub_type == 5 {
            map_decoded(
                STATE_CHANGE_AS4::decode(s, at),
                |x: STATE_CHANGE_AS4| Bgp4mpView::STATE_CHANGE_AS4(x),
            )
        } else if sub_type == 6 {
            map_decoded(
                MESSAGE::decode(s, at, length),
                |x: MessageView| Bgp4mpView::MESSAGE_LOCAL(x),
            )
        } else if sub_type == 7 {
            map_decoded(
                MESSAGE_AS4::decode(s, at, length),
                |x: MessageAs4View| Bgp4mpView::MESSAGE_AS4_LOCAL(x),
            )
        } else if sub_type == 8 {
            map_decoded(
                MESSAGE::decode(s, at, length),
                |x: MessageView| Bgp4mpView::MESSAGE_ADDPATH(x),
            )
        } else if sub_type == 9 {
            map_decoded(
                MESSAGE_AS4::decode(s, at, length),
                |x: MessageAs4View| Bgp4mpView::MESSAGE_AS4_ADDPATH(x),
            )
        } else if sub_type == 10 {
            map_decoded(
                MESSAGE::decode(s, at, length),
                |x: MessageView| Bgp4mpView::MESSAGE_LOCAL_ADDPATH(x),
            )
        } else if sub_type == 11 {
            map_decoded(
                MESSAGE_AS4::decode(s, at, length),
                |x: MessageAs4View| Bgp4mpView::MESSAGE_AS4_LOCAL_ADDPATH(x),
            )
        } else {
            failed(DecodeError::UnknownSubtype(sub_type), 0)
        }
    }

    /// What is decoded is of the subtype asked for and can stand on the wire.
    pub proof fn lemma_decode_wf(s: Seq<u8>, at: int, sub_type: u16, length: u32)
        ensures
            BGP4MP::decode(s, at, sub_type, length) matches Ok((v, n)) ==> v.sub_type() == sub_type
                && v.wf(length),
    {
        STATE_CHANGE::lemma_decode_wf(s, at);
        MESSAGE::lemma_decode_wf(s, at, length);
        ENTRY::lemma_decode_wf(s, at);
        SNAPSHOT::lemma_decode_wf(s, at);
        MESSAGE_AS4::lemma_decode_wf(s, at, length);
        STATE_CHANGE_AS4::lemma_decode_wf(s, at);
    }

    /// Reads the payload of a BGP4MP record: the subtype in the header picks
    /// the layout, and an undefined subtype is an error.
    pub fn parse(header: &Header, stream: &mut ByteStream) -> (r: Result<BGP4MP, DecodeError>)
        ensures
            decoded(
                r,
                BGP4MP::decode(
                    old(stream).bytes(),
                    old(stream).position() as int,
                    header.sub_type,
                    header.length,
                ),
                old(stream),
                final(stream),
            ),
            header.sub_type > 11 ==> {
                &&& r matches Err(e)
                &&& e == DecodeError::UnknownSubtype(header.sub_type)
                &&& final(stream).position() == old(stream).position()
            },
    {
        match header.sub_type {
            0 => Ok(BGP4MP::STATE_CHANGE(STATE_CHANGE::parse(stream)?)),
            1 => Ok(BGP4MP::MESSAGE(MESSAGE::parse(header, stream)?)),
            2 => Ok(BGP4MP::ENTRY(ENTRY::parse(stream)?)),
            3 => Ok(BGP4MP::SNAPSHOT(SNAPSHOT::parse(stream)?)),
            4 => Ok(BGP4MP::MESSAGE_AS4(MESSAGE_AS4::parse(header, stream)?)),
            5 => Ok(BGP4MP::STATE_CHANGE_AS4(STATE_CHANGE_AS4::parse(stream)?)),
            6 => Ok(BGP4MP::MESSAGE_LOCAL(MESSAGE::parse(header, stream)?)),
            7 => Ok(BGP4MP::MESSAGE_AS4_LOCAL(MESSAGE_AS4::parse(header, stream)?)),
            8 => Ok(BGP4MP::MESSAGE_ADDPATH(MESSAGE::parse(header, stream)?)),
            9 => Ok(BGP4MP::MESSAGE_AS4_ADDPATH(MESSAGE_AS4::parse(header, stream)?)),
            10 => Ok(BGP4MP::MESSAGE_LOCAL_ADDPATH(MESSAGE::parse(header, stream)?)),
            11 => Ok(BGP4MP::MESSAGE_AS4_LOCAL_ADDPATH(MESSAGE_AS4::parse(header, stream)?)),
            x => Err(DecodeError::UnknownSubtype(x)),
        }
    }
}

} // verus!
