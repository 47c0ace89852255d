use crate::addr::Ipv6Address;
use crate::error::DecodeError;
use crate::Header;
use crate::stream::ByteStream;
use crate::stream::decoded;
use crate::wire::available;
use crate::wire::be_u16;
use crate::wire::Decoding;
use crate::wire::holds;
use crate::wire::lemma_be_u16_holds;
use crate::wire::lemma_holds_split;
use crate::wire::lemma_int_bytes_len;
use crate::wire::lemma_nul_distance_is_first;
use crate::wire::lemma_nul_distance_some;
use crate::wire::map_decoded;
use crate::wire::nul_distance;
use crate::wire::nul_free;
use crate::wire::failed;
use crate::wire::taken;
use crate::wire::truncated;
use crate::wire::u16_bytes;
use vstd::prelude::*;

verus! {

/// A whole BGP message (UPDATE, OPEN, NOTIFY or KEEPALIVE) between two
/// IPv6 speakers. The message itself is opaque here.
#[derive(Debug, PartialEq, Eq)]
#[allow(non_camel_case_types)]
pub struct MESSAGE {
    /// The AS number of the peer.
    pub peer_as: u16,
    /// The address of the peer.
    pub peer_ip: Ipv6Address,
    /// The AS number of the collector.
    pub local_as: u16,
    /// The address of the collector.
    pub local_ip: Ipv6Address,
    /// The message as it was received.
    pub message: Vec<u8>,
}

/// What a [`MESSAGE`] holds, as mathematical values.
pub ghost struct MessageView {
    pub peer_as: u16,
    pub peer_ip: Ipv6Address,
    pub local_as: u16,
    pub local_ip: Ipv6Address,
    pub message: Seq<u8>,
}

impl View for MESSAGE {
    type V = MessageView;

    open spec fn view(&self) -> MessageView {
        MessageView {
            peer_as: self.peer_as,
            peer_ip: self.peer_ip,
            local_as: self.local_as,
            local_ip: self.local_ip,
            message: self.message@,
        }
    }
}

impl MessageView {
    /// Whether the value can stand on the wire under a header of the given
    /// length: the length is that of the 36 bytes of fixed fields and the
    /// message together.
    pub open spec fn wf(self, length: u32) -> bool {
        length == 36 + self.message.len()
    }

    /// The bytes that stand for the value.
    pub open spec fn wire(self) -> Seq<u8> {
        u16_bytes(self.peer_as) + self.peer_ip.wire() + u16_bytes(self.local_as)
            + self.local_ip.wire() + self.message
    }

    /// Decoding the bytes of a value gives the value, and takes those bytes.
    pub proof fn lemma_decode_wire(self, s: Seq<u8>, at: int, length: u32)
        requires
            self.wf(length),
            holds(s, at, self.wire()),
        ensures
            MESSAGE::decode(s, at, length) == taken(self, self.wire().len()),
    {
        lemma_int_bytes_len();
        let part1 = u16_bytes(self.peer_as);
        let part2 = self.peer_ip.wire();
        let part3 = u16_bytes(self.local_as);
        let part4 = self.local_ip.wire();
        lemma_holds_split(s, at, part1 + part2 + part3 + part4, self.message);
        lemma_holds_split(s, at, part1 + part2 + part3, part4);
        lemma_holds_split(s, at, part1 + part2, part3);
        lemma_holds_split(s, at, part1, part2);
        lemma_be_u16_holds(s, at, self.peer_as);
        self.peer_ip.lemma_at_wire(s, at + 2);
        lemma_be_u16_holds(s, at + 18, self.local_as);
        self.local_ip.lemma_at_wire(s, at + 20);
    }
}

impl MESSAGE {
    /// What the bytes at `at` stand for under a header of the given length:
    /// 36 bytes of fixed fields, then a message that takes what is left of
    /// the length. A length under 36 is an error.
    pub open spec fn decode(s: Seq<u8>, at: int, length: u32) -> Decoding<MessageView> {
        if !available(s, at, 36) {
            truncated(s, at)
        } else if length < 36 {
            failed(DecodeError::InvalidLength(length), 36)
        } else if !available(s, at + 36, length - 36) {
            truncated(s, at)
        } else {
            Ok(
                (
                    MessageView {
                        peer_as: be_u16(s, at),
                        peer_ip: Ipv6Address::at(s, at + 2),
                        local_as: be_u16(s, at + 18),
                        local_ip: Ipv6Address::at(s, at + 20),
                        message: s.subrange(at + 36, at + length),
                    },
                    length as nat,
                ),
            )
        }
    }

    /// What is decoded can stand on the wire.
    pub proof fn lemma_decode_wf(s: Seq<u8>, at: int, length: u32)
        ensures
            MESSAGE::decode(s, at, length) matches Ok((v, n)) ==> v.wf(length),
    {
    }

    /// Reads a whole BGP message. Its length is not on the wire: it is what
    /// the header's length leaves after the 36 bytes of fixed fields.
    pub fn parse(header: &Header, stream: &mut ByteStream) -> (r: Result<MESSAGE, DecodeError>)
        ensures
            decoded(
                r,
                MESSAGE::decode(
                    old(stream).bytes(),
                    old(stream).position() as int,
                    header.length,
                ),
                old(stream),
                final(stream),
            ),
            r matches Ok(m) ==> m.message@.len() == header.length - 36,
    {
        let peer_as = stream.read_u16()?;
        let peer_ip = Ipv6Address::parse(stream)?;
        let local_as = stream.read_u16()?;
        let local_ip = Ipv6Address::parse(stream)?;
        if header.length < 36 {
            return Err(DecodeError::InvalidLength(header.length));
        }
        let message = stream.read_bytes((header.length - 36) as usize)?;
        Ok(MESSAGE { peer_as, peer_ip, local_as, local_ip, message })
    }
}

/// A change of state of the BGP finite state machine (RFC 4271, section 8).
#[derive(Clone, Copy, Debug, PartialEq, Eq, Structural)]
#[allow(non_camel_case_types)]
pub struct STATE_CHANGE {
    /// The AS number of the peer.
    pub peer_as: u16,
    /// The address of the peer.
    pub peer_ip: Ipv6Address,
    /// The state that was left.
    pub old_state: u16,
    /// The state that was entered.
    pub new_state: u16,
}

impl View for STATE_CHANGE {
    type V = STATE_CHANGE;

    open spec fn view(&self) -> STATE_CHANGE {
        *self
    }
}

impl STATE_CHANGE {
    /// What the bytes at `at` stand for: 22 bytes of fixed fields.
    pub open spec fn decode(s: Seq<u8>, at: int) -> Decoding<STATE_CHANGE> {
        if !available(s, at, 22) {
            truncated(s, at)
        } else {
            Ok(
                (
                    STATE_CHANGE {
                        peer_as: be_u16(s, at),
                        peer_ip: Ipv6Address::at(s, at + 2),
                        old_state: be_u16(s, at + 18),
                        new_state: be_u16(s, at + 20),
                    },
                    22nat,
                ),
            )
        }
    }

    /// The bytes that stand for the value.
    pub open spec fn wire(self) -> Seq<u8> {
        u16_bytes(self.peer_as) + self.peer_ip.wire() + u16_bytes(self.old_state) + u16_bytes(
            self.new_state,
        )
    }

    /// Decoding the bytes of a value gives the value, and takes those bytes.
    pub proof fn lemma_decode_wire(self, s: Seq<u8>, at: int)
        requires
            holds(s, at, self.wire()),
        ensures
            STATE_CHANGE::decode(s, at) == taken(self, self.wire().len()),
    {
        lemma_int_bytes_len();
        let part1 = u16_bytes(self.peer_as);
        let part2 = self.peer_ip.wire();
        let part3 = u16_bytes(self.old_state);
        let part4 = u16_bytes(self.new_state);
        lemma_holds_split(s, at, part1 + part2 + part3, part4);
        lemma_holds_split(s, at, part1 + part2, part3);
        lemma_holds_split(s, at, part1, part2);
        lemma_be_u16_holds(s, at, self.peer_as);
        self.peer_ip.lemma_at_wire(s, at + 2);
        lemma_be_u16_holds(s, at + 18, self.old_state);
        lemma_be_u16_holds(s, at + 20, self.new_state);
    }

    /// Reads a state change.
    pub fn parse(stream: &mut ByteStream) -> (r: Result<STATE_CHANGE, DecodeError>)
        ensures
            decoded(
                r,
                STATE_CHANGE::decode(old(stream).bytes(), old(stream).position() as int),
                old(stream),
                final(stream),
            ),
    {
        let peer_as = stream.read_u16()?;
        let peer_ip = Ipv6Address::parse(stream)?;
        let old_state = stream.read_u16()?;
        let new_state = stream.read_u16()?;
        Ok(STATE_CHANGE { peer_as, peer_ip, old_state, new_state })
    }
}

/// Deprecated: names a file that holds a snapshot of the routing table.
#[derive(Debug, PartialEq, Eq)]
#[allow(non_camel_case_types)]
pub struct SYNC {
    /// The view that the snapshot was taken of.
    pub view_number: u16,
    /// The name of the file, without the NUL that ends it on the wire.
    pub filename: Vec<u8>,
}

/// What a [`SYNC`] holds, as mathematical values.
pub ghost struct SyncView {
    pub view_number: u16,
    pub filename: Seq<u8>,
}

impl View for SYNC {
    type V = SyncView;

    open spec fn view(&self) -> SyncView {
        SyncView { view_number: self.view_number, filename: self.filename@ }
    }
}

impl SyncView {
    /// Whether the value can stand on the wire: the name holds no NUL.
    pub open spec fn wf(self) -> bool {
        nul_free(self.filename)
    }

    /// The bytes that stand for the value: the view number, the name, a NUL.
    pub open spec fn wire(self) -> Seq<u8> {
        u16_bytes(self.view_number) + self.filename + seq![0u8]
    }

    /// Decoding the bytes of a value gives the value, and takes those bytes.
    pub proof fn lemma_decode_wire(self, s: Seq<u8>, at: int)
        requires
            self.wf(),
            holds(s, at, self.wire()),
        ensures
            SYNC::decode(s, at) == taken(self, self.wire().len()),
    {
        let end = seq![0u8];
        lemma_holds_split(s, at, u16_bytes(self.view_number) + self.filename, end);
        lemma_holds_split(s, at, u16_bytes(self.view_number), self.filename);
        lemma_be_u16_holds(s, at, self.view_number);
        assert(s[at + 2 + self.filename.len()] == 0) by {
            assert(s.subrange(at + 2 + self.filename.len(), at + 2 + self.filename.len() + 1)[0]
                == end[0]);
        }
        lemma_nul_distance_some(s, at + 2, self.filename.len());
    }
}

impl SYNC {
    /// What the bytes at `at` stand for: a view number, then a name that
    /// runs up to the first NUL.
    pub open spec fn decode(s: Seq<u8>, at: int) -> Decoding<SyncView> {
        if !available(s, at, 2) {
            truncated(s, at)
        } else {
            match nul_distance(s, at + 2) {
                None => truncated(s, at),
                Some(n) => Ok(
                    (
                        SyncView {
                            view_number: be_u16(s, at),
                            filename: s.subrange(at + 2, at + 2 + n),
                        },
                        2 + n + 1,
                    ),
                ),
            }
        }
    }

    /// What is decoded can stand on the wire.
    pub proof fn lemma_decode_wf(s: Seq<u8>, at: int)
        ensures
            SYNC::decode(s, at) matches Ok((v, n)) ==> v.wf(),
    {
        if SYNC::decode(s, at) is Ok {
            lemma_nul_distance_is_first(s, at + 2);
        }
    }

    /// Reads a SYNC record.
    pub fn parse(stream: &mut ByteStream) -> (r: Result<SYNC, DecodeError>)
        ensures
            decoded(
                r,
                SYNC::decode(old(stream).bytes(), old(stream).position() as int),
                old(stream),
                final(stream),
            ),
    {
        let view_number = stream.read_u16()?;
        let filename = stream.read_until_nul()?;
        Ok(SYNC { view_number, filename })
    }
}

/// The subtypes of the deprecated BGP4PLUS record type.
#[derive(Debug, PartialEq, Eq)]
#[allow(non_camel_case_types)]
pub enum BGP4PLUS {
    /// No payload.
    NULL,
    /// An UPDATE message.
    UPDATE(MESSAGE),
    /// Deprecated; no payload.
    PREF_UPDATE,
    /// A change of state.
    STATE_CHANGE(STATE_CHANGE),
    /// The name of a snapshot file.
    SYNC(SYNC),
    /// An OPEN message.
    OPEN(MESSAGE),
    /// A NOTIFY message.
    NOTIFY(MESSAGE),
    /// A KEEPALIVE message.
    KEEPALIVE(MESSAGE),
}

/// What a [`BGP4PLUS`] holds, as mathematical values.
#[allow(non_camel_case_types)]
pub ghost enum Bgp4plusView {
    NULL,
    UPDATE(MessageView),
    PREF_UPDATE,
    STATE_CHANGE(STATE_CHANGE),
    SYNC(SyncView),
    OPEN(MessageView),
    NOTIFY(MessageView),
    KEEPALIVE(MessageView),
}

impl View for BGP4PLUS {
    type V = Bgp4plusView;

    open spec fn view(&self) -> Bgp4plusView {
        match self {
            BGP4PLUS::NULL => Bgp4plusView::NULL,
            BGP4PLUS::UPDATE(x) => Bgp4plusView::UPDATE(x@),
            BGP4PLUS::PREF_UPDATE => Bgp4plusView::PREF_UPDATE,
            BGP4PLUS::STATE_CHANGE(x) => Bgp4plusView::STATE_CHANGE(x@),
            BGP4PLUS::SYNC(x) => Bgp4plusView::SYNC(x@),
            BGP4PLUS::OPEN(x) => Bgp4plusView::OPEN(x@),
            BGP4PLUS::NOTIFY(x) => Bgp4plusView::NOTIFY(x@),
            BGP4PLUS::KEEPALIVE(x) => Bgp4plusView::KEEPALIVE(x@),
        }
    }
}

impl Bgp4plusView {
    /// The subtype code of the variant.
    pub open spec fn sub_type(self) -> u16 {
        match self {
            Bgp4plusView::NULL => 0,
            Bgp4plusView::UPDATE(_) => 1,
            Bgp4plusView::PREF_UPDATE => 2,
            Bgp4plusView::STATE_CHANGE(_) => 3,
            Bgp4plusView::SYNC(_) => 4,
            Bgp4plusView::OPEN(_) => 5,
            Bgp4plusView::NOTIFY(_) => 6,
            Bgp4plusView::KEEPALIVE(_) => 7,
        }
    }

    /// Whether the payload can stand on the wire under a header of the given
    /// length.
    pub open spec fn wf(self, length: u32) -> bool {
        match self {
            Bgp4plusView::NULL => true,
            Bgp4plusView::UPDATE(x) => x.wf(length),
            Bgp4plusView::PREF_UPDATE => true,
            Bgp4plusView::STATE_CHANGE(_) => true,
            Bgp4plusView::SYNC(x) => x.wf(),
            Bgp4plusView::OPEN(x) => x.wf(length),
            Bgp4plusView::NOTIFY(x) => x.wf(length),
            Bgp4plusView::KEEPALIVE(x) => x.wf(length),
        }
    }

    /// The bytes that stand for the payload.
    pub open spec fn wire(self) -> Seq<u8> {
        match self {
            Bgp4plusView::NULL => Seq::empty(),
            Bgp4plusView::UPDATE(x) => x.wire(),
            Bgp4plusView::PREF_UPDATE => Seq::empty(),
            Bgp4plusView::STATE_CHANGE(x) => x.wire(),
            Bgp4plusView::SYNC(x) => x.wire(),
            Bgp4plusView::OPEN(x) => x.wire(),
            Bgp4plusView::NOTIFY(x) => x.wire(),
            Bgp4plusView::KEEPALIVE(x) => x.wire(),
        }
    }

    /// Decoding the bytes of a payload, under its subtype, gives the payload,
    /// and takes those bytes.
    pub proof fn lemma_decode_wire(self, s: Seq<u8>, at: int, length: u32)
        requires
            self.wf(length),
            holds(s, at, self.wire()),
        ensures
            BGP4PLUS::decode(s, at, self.sub_type(), length) == taken(self, self.wire().len()),
    {
        match self {
            Bgp4plusView::NULL => {},
            Bgp4plusView::UPDATE(x) => {
                x.lemma_decode_wire(s, at, length);
            },
            Bgp4plusView::PREF_UPDATE => {},
            Bgp4plusView::STATE_CHANGE(x) => {
                x.lemma_decode_wire(s, at);
            },
            Bgp4plusView::SYNC(x) => {
                x.lemma_decode_wire(s, at);
            },
            Bgp4plusView::OPEN(x) => {
                x.lemma_decode_wire(s, at, length);
            },
            Bgp4plusView::NOTIFY(x) => {
                x.lemma_decode_wire(s, at, length);
            },
            Bgp4plusView::KEEPALIVE(x) => {
                x.lemma_decode_wire(s, at, length);
            },
        }
    }
}

impl BGP4PLUS {
    /// What the bytes at `at` stand for under a header with the given subtype
    /// and length. The subtypes 0 and 2 have no payload.
    pub open spec fn decode(
        s: Seq<u8>,
        at: int,
        sub_type: u16,
        length: u32,
    ) -> Decoding<Bgp4plusView> {
        if sub_type == 0 {
            Ok((Bgp4plusView::NULL, 0nat))
        } else if sub_type == 1 {
            map_decoded(MESSAGE::decode(s, at, length), |x: MessageView| Bgp4plusView::UPDATE(x))
        } else if sub_type == 2 {
            Ok((Bgp4plusView::PREF_UPDATE, 0nat))
        } else if sub_type == 3 {
            map_decoded(
                STATE_CHANGE::decode(s, at),
                |x: STATE_CHANGE| Bgp4plusView::STATE_CHANGE(x),
            )
        } else if sub_type == 4 {
            map_decoded(SYNC::decode(s, at), |x: SyncView| Bgp4plusView::SYNC(x))
        } else if sub_type == 5 {
            map_decoded(MESSAGE::decode(s, at, length), |x: MessageView| Bgp4plusView::OPEN(x))
        } else if sub_type == 6 {
            map_decoded(MESSAGE::decode(s, at, length), |x: MessageView| Bgp4plusView::NOTIFY(x))
        } else if sub_type == 7 {
            map_decoded(MESSAGE::decode(s, at, length), |x: MessageView| Bgp4plusView::KEEPALIVE(x))
        } else {
            failed(DecodeError::UnknownSubtype(sub_type), 0)
        }
    }

    /// What is decoded is of the subtype asked for and can stand on the wire.
    pub proof fn lemma_decode_wf(s: Seq<u8>, at: int, sub_type: u16, length: u32)
        ensures
            BGP4PLUS::decode(s, at, sub_type, length) matches Ok((v, n)) ==> v.sub_type()
                == sub_type && v.wf(length),
    {
        MESSAGE::lemma_decode_wf(s, at, length);
        SYNC::lemma_decode_wf(s, at);
    }

    /// Reads the payload of a BGP4PLUS record: the subtype in the header picks
    /// the layout, and an undefined subtype is an error.
    pub fn parse(header: &Header, stream: &mut ByteStream) -> (r: Result<BGP4PLUS, DecodeError>)
        ensures
            decoded(
                r,
                BGP4PLUS::decode(
                    old(stream).bytes(),
                    old(stream).position() as int,
                    header.sub_type,
                    header.length,
                ),
                old(stream),
                final(stream),
            ),
            header.sub_type > 7 ==> {
                &&& r matches Err(e)
                &&& e == DecodeError::UnknownSubtype(header.sub_type)
                &&& final(stream).position() == old(stream).position()
            },
    {
        match header.sub_type {
            0 => Ok(BGP4PLUS::NULL),
            1 => Ok(BGP4PLUS::UPDATE(MESSAGE::parse(header, stream)?)),
            2 => Ok(BGP4PLUS::PREF_UPDATE),
            3 => Ok(BGP4PLUS::STATE_CHANGE(STATE_CHANGE::parse(stream)?)),
            4 => Ok(BGP4PLUS::SYNC(SYNC::parse(stream)?)),
            5 => Ok(BGP4PLUS::OPEN(MESSAGE::parse(header, stream)?)),
            6 => Ok(BGP4PLUS::NOTIFY(MESSAGE::parse(header, stream)?)),
            7 => Ok(BGP4PLUS::KEEPALIVE(MESSAGE::parse(header, stream)?)),
            x => Err(DecodeError::UnknownSubtype(x)),
        }
    }
}

} // verus!
