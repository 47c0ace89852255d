use crate::addr::IpAddress;
use crate::AFI;
use crate::error::DecodeError;
use crate::Header;
use crate::stream::ByteStream;
use crate::stream::decoded;
use crate::wire::available;
use crate::wire::be_u16;
use crate::wire::be_u32;
use crate::wire::Decoding;
use crate::wire::holds;
use crate::wire::lemma_be_u16_holds;
use crate::wire::lemma_be_u32_holds;
use crate::wire::lemma_holds_split;
use crate::wire::lemma_int_bytes_len;
use crate::wire::lemma_u8_holds;
use crate::wire::map_decoded;
use crate::wire::failed;
use crate::wire::taken;
use crate::wire::truncated;
use crate::wire::u16_bytes;
use crate::wire::u32_bytes;
use self::peer::PeerIndexTableView;
use self::rib::RibAfiAddPathView;
use self::rib::RibAfiView;
use self::rib::RibGenericAddPathView;
use self::rib::RibGenericView;
use vstd::prelude::*;
use vstd::slice::slice_subrange;

/// BGP path attributes.
pub mod attribute;

/// The peer index table and its entries.
pub mod peer;

/// The routes of a routing table, prefix by prefix.
pub mod rib;

pub use self::attribute::AsPath;
pub use self::attribute::Origin;
pub use self::attribute::PathAttribute;
pub use self::attribute::SegmentType;
pub use self::peer::PeerEntry;
pub use self::peer::PEER_INDEX_TABLE;
pub use self::rib::RIBEntry;
pub use self::rib::RIBEntryAddPath;
pub use self::rib::RIB_AFI;
pub use self::rib::RIB_AFI_ADDPATH;
pub use self::rib::RIB_GENERIC;
pub use self::rib::RIB_GENERIC_ADDPATH;

verus! {

/// Takes a big-endian `u32` off the front of `input`, which is left at the
/// bytes behind it.
pub fn read_be_u32(input: &mut &[u8]) -> (r: u32)
    requires
        old(input)@.len() >= 4,
    ensures
        r == be_u32(old(input)@, 0),
        final(input)@ == old(input)@.skip(4),
{
    let whole: &[u8] = *input;
    let r = whole[0] as u32 * 0x100_0000 + whole[1] as u32 * 0x1_0000 + whole[2] as u32 * 0x100
        + whole[3] as u32;
    *input = slice_subrange(whole, 4, whole.len());
    r
}

/// A route of a routing table in the legacy form: one record for each route.
#[derive(Debug, PartialEq, Eq)]
#[allow(non_camel_case_types)]
pub struct TABLE_DUMP {
    /// The view that the route belongs to; normally 0.
    pub view_number: u16,
    /// The number of the route in the dump; it wraps to zero.
    pub sequence_number: u16,
    /// The address of the prefix.
    pub prefix: IpAddress,
    /// The length of the prefix in bits.
    pub prefix_length: u8,
    /// Unused; set to 1.
    pub status: u8,
    /// The time at which the route was received.
    pub originated_time: u32,
    /// The address of the peer that announced the route.
    pub peer_address: IpAddress,
    /// The AS number of that peer.
    pub peer_as: u16,
    /// The path attributes of the route, undecoded.
    pub attributes: Vec<u8>,
}

/// What a [`TABLE_DUMP`] holds, as mathematical values.
pub ghost struct TableDumpView {
    pub view_number: u16,
    pub sequence_number: u16,
    pub prefix: IpAddress,
    pub prefix_length: u8,
    pub status: u8,
    pub originated_time: u32,
    pub peer_address: IpAddress,
    pub peer_as: u16,
    pub attributes: Seq<u8>,
}

impl View for TABLE_DUMP {
    type V = TableDumpView;

    open spec fn view(&self) -> TableDumpView {
        TableDumpView {
            view_number: self.view_number,
            sequence_number: self.sequence_number,
            prefix: self.prefix,
            prefix_length: self.prefix_length,
            status: self.status,
            originated_time: self.originated_time,
            peer_address: self.peer_address,
            peer_as: self.peer_as,
            attributes: self.attributes@,
        }
    }
}

impl TableDumpView {
    /// The subtype of the record that holds the value: the code of the
    /// prefix's family.
    pub open spec fn sub_type(self) -> u16 {
        self.prefix.afi().code()
    }

    /// Whether the value can stand on the wire: the prefix and the peer's
    /// address are of one family, and the attributes' length fits in 16
    /// bits.
    pub open spec fn wf(self) -> bool {
        &&& self.prefix.afi() == self.peer_address.afi()
        &&& self.attributes.len() <= 0xFFFF
    }

    /// The fields up to the time.
    pub open spec fn wire_prefix(self) -> Seq<u8> {
        u16_bytes(self.view_number) + u16_bytes(self.sequence_number) + self.prefix.wire()
            + seq![self.prefix_length] + seq![self.status] + u32_bytes(self.originated_time)
    }

    /// The fields from the peer's address on.
    pub open spec fn wire_peer(self) -> Seq<u8> {
        self.peer_address.wire() + u16_bytes(self.peer_as) + u16_bytes(
            self.attributes.len() as u16,
        ) + self.attributes
    }

    /// The bytes that stand for the value.
    pub open spec fn wire(self) -> Seq<u8> {
        self.wire_prefix() + self.wire_peer()
    }

    /// Decoding the bytes of a value, under the subtype of its family, gives
    /// the value, and takes those bytes.
    pub proof fn lemma_decode_wire(self, s: Seq<u8>, at: int)
        requires
            self.wf(),
            holds(s, at, self.wire()),
        ensures
            TABLE_DUMP::decode(s, at, self.sub_type()) == taken(self, self.wire().len()),
    {
        lemma_int_bytes_len();
        let w = self.prefix.afi().width();
        lemma_holds_split(s, at, self.wire_prefix(), self.wire_peer());
        let part1 = u16_bytes(self.view_number);
        let part2 = u16_bytes(self.sequence_number);
        let part3 = self.prefix.wire();
        let part4 = seq![self.prefix_length];
        let part5 = seq![self.status];
        let part6 = u32_bytes(self.originated_time);
        lemma_holds_split(s, at, part1 + part2 + part3 + part4 + part5, part6);
        lemma_holds_split(s, at, part1 + part2 + part3 + part4, part5);
        lemma_holds_split(s, at, part1 + part2 + part3, part4);
        lemma_holds_split(s, at, part1 + part2, part3);
        lemma_holds_split(s, at, part1, part2);
        lemma_be_u16_holds(s, at, self.view_number);
        lemma_be_u16_holds(s, at + 2, self.sequence_number);
        self.prefix.lemma_at_wire(s, at + 4);
        lemma_u8_holds(s, at + 4 + w, self.prefix_length);
        lemma_u8_holds(s, at + 5 + w, self.status);
        lemma_be_u32_holds(s, at + 6 + w, self.originated_time);
        let a = at + 10 + w;
        let q1 = self.peer_address.wire();
        let q2 = u16_bytes(self.peer_as);
        let q3 = u16_bytes(self.attributes.len() as u16);
        lemma_holds_split(s, a, q1 + q2 + q3, self.attributes);
        lemma_holds_split(s, a, q1 + q2, q3);
        lemma_holds_split(s, a, q1, q2);
        self.peer_address.lemma_at_wire(s, a);
        lemma_be_u16_holds(s, a + w, self.peer_as);
        lemma_be_u16_holds(s, a + w + 2, self.attributes.len() as u16);
    }
}

impl TABLE_DUMP {
    /// What the bytes at `at` stand for under a header with the given
    /// subtype, which here says the address family (1 is IPv4, 2 is IPv6):
    /// view and sequence number; the prefix's address, its length and the
    /// status; the time; the peer's address and AS number; the attributes
    /// behind their length.
    pub open spec fn decode(s: Seq<u8>, at: int, sub_type: u16) -> Decoding<TableDumpView> {
        if !available(s, at, 4) {
            truncated(s, at)
        } else {
            match AFI::of_code(sub_type) {
                None => failed(DecodeError::InvalidAfi(sub_type), 4),
                Some(afi) => {
                    let w = afi.width();
                    let body = at + 14 + 2 * w;
                    if !available(s, at + 4, 2 * w + 10) {
                        truncated(s, at)
                    } else if !available(s, body, be_u16(s, body - 2) as int) {
                        truncated(s, at)
                    } else {
                        Ok(
                            (
                                TableDumpView {
                                    view_number: be_u16(s, at),
                                    sequence_number: be_u16(s, at + 2),
                                    prefix: IpAddress::at(s, at + 4, afi),
                                    prefix_length: s[at + 4 + w],
                                    status: s[at + 5 + w],
                                    originated_time: be_u32(s, at + 6 + w),
                                    peer_address: IpAddress::at(s, at + 10 + w, afi),
                                    peer_as: be_u16(s, at + 10 + 2 * w),
                                    attributes: s.subrange(body, body + be_u16(s, body - 2)),
                                },
                                (14 + 2 * w + be_u16(s, body - 2)) as nat,
                            ),
                        )
                    }
                },
            }
        }
    }

    /// What is decoded is of the family that the subtype says and can stand
    /// on the wire.
    pub proof fn lemma_decode_wf(s: Seq<u8>, at: int, sub_type: u16)
        ensures
            TABLE_DUMP::decode(s, at, sub_type) matches Ok((v, n)) ==> v.sub_type() == sub_type
                && v.wf(),
    {
    }

    /// Reads the payload of a TABLE_DUMP record. The header's subtype says
    /// the address family; a subtype other than 1 and 2 is an error.
    pub fn parse(header: &Header, stream: &mut ByteStream) -> (r: Result<TABLE_DUMP, DecodeError>)
        ensures
            decoded(
                r,
                TABLE_DUMP::decode(
                    old(stream).bytes(),
                    old(stream).position() as int,
                    header.sub_type,
                ),
                old(stream),
                final(stream),
            ),
    {
        let view_number = stream.read_u16()?;
        let sequence_number = stream.read_u16()?;
        let afi = AFI::from(header.sub_type)?;
        let prefix = IpAddress::parse(afi, stream)?;
        let prefix_length = stream.read_u8()?;
        let status = stream.read_u8()?;
        let originated_time = stream.read_u32()?;
        let peer_address = IpAddress::parse(afi, stream)?;
        let peer_as = stream.read_u16()?;
        let attribute_length = stream.read_u16()?;
        let attributes = stream.read_bytes(attribute_length as usize)?;
        Ok(
            TABLE_DUMP {
                view_number,
                sequence_number,
                prefix,
                prefix_length,
                status,
                originated_time,
                peer_address,
                peer_as,
                attributes,
            },
        )
    }
}

/// The subtypes of the TABLE_DUMP_V2 record type: a routing table, one
/// record for the peers and one for each prefix.
#[derive(Debug, PartialEq, Eq)]
#[allow(non_camel_case_types)]
pub enum TABLE_DUMP_V2 {
    /// The peers that the RIB records of the same dump refer to.
    PEER_INDEX_TABLE(PEER_INDEX_TABLE),
    /// The routes to an IPv4 unicast prefix.
    RIB_IPV4_UNICAST(RIB_AFI),
    /// The routes to an IPv4 multicast prefix.
    RIB_IPV4_MULTICAST(RIB_AFI),
    /// The routes to an IPv6 unicast prefix.
    RIB_IPV6_UNICAST(RIB_AFI),
    /// The routes to an IPv6 multicast prefix.
    RIB_IPV6_MULTICAST(RIB_AFI),
    /// The routes to a prefix of a family that the record names.
    RIB_GENERIC(RIB_GENERIC),
    /// The routes to an IPv4 unicast prefix, with path identifiers.
    RIB_IPV4_UNICAST_ADDPATH(RIB_AFI_ADDPATH),
    /// The routes to an IPv4 multicast prefix, with path identifiers.
    RIB_IPV4_MULTICAST_ADDPATH(RIB_AFI_ADDPATH),
    /// The routes to an IPv6 unicast prefix, with path identifiers.
    RIB_IPV6_UNICAST_ADDPATH(RIB_AFI_ADDPATH),
    /// The routes to an IPv6 multicast prefix, with path identifiers.
    RIB_IPV6_MULTICAST_ADDPATH(RIB_AFI_ADDPATH),
    /// The routes to a prefix of a family that the record names, with path
    /// identifiers.
    RIB_GENERIC_ADDPATH(RIB_GENERIC_ADDPATH),
}

/// What a [`TABLE_DUMP_V2`] holds, as mathematical values.
#[allow(non_camel_case_types)]
pub ghost enum TableDumpV2View {
    PEER_INDEX_TABLE(PeerIndexTableView),
    RIB_IPV4_UNICAST(RibAfiView),
    RIB_IPV4_MULTICAST(RibAfiView),
    RIB_IPV6_UNICAST(RibAfiView),
    RIB_IPV6_MULTICAST(RibAfiView),
    RIB_GENERIC(RibGenericView),
    RIB_IPV4_UNICAST_ADDPATH(RibAfiAddPathView),
    RIB_IPV4_MULTICAST_ADDPATH(RibAfiAddPathView),
    RIB_IPV6_UNICAST_ADDPATH(RibAfiAddPathView),
    RIB_IPV6_MULTICAST_ADDPATH(RibAfiAddPathView),
    RIB_GENERIC_ADDPATH(RibGenericAddPathView),
}

impl View for TABLE_DUMP_V2 {
    type V = TableDumpV2View;

    open spec fn view(&self) -> TableDumpV2View {
        match self {
            TABLE_DUMP_V2::PEER_INDEX_TABLE(x) => TableDumpV2View::PEER_INDEX_TABLE(x@),
            TABLE_DUMP_V2::RIB_IPV4_UNICAST(x) => TableDumpV2View::RIB_IPV4_UNICAST(x@),
            TABLE_DUMP_V2::RIB_IPV4_MULTICAST(x) => TableDumpV2View::RIB_IPV4_MULTICAST(x@),
            TABLE_DUMP_V2::RIB_IPV6_UNICAST(x) => TableDumpV2View::RIB_IPV6_UNICAST(x@),
            TABLE_DUMP_V2::RIB_IPV6_MULTICAST(x) => TableDumpV2View::RIB_IPV6_MULTICAST(x@),
            TABLE_DUMP_V2::RIB_GENERIC(x) => TableDumpV2View::RIB_GENERIC(x@),
            TABLE_DUMP_V2::RIB_IPV4_UNICAST_ADDPATH(x) => {
                TableDumpV2View::RIB_IPV4_UNICAST_ADDPATH(x@)
            },
            TABLE_DUMP_V2::RIB_IPV4_MULTICAST_ADDPATH(x) => {
                TableDumpV2View::RIB_IPV4_MULTICAST_ADDPATH(x@)
            },
            TABLE_DUMP_V2::RIB_IPV6_UNICAST_ADDPATH(x) => {
                TableDumpV2View::RIB_IPV6_UNICAST_ADDPATH(x@)
            },
            TABLE_DUMP_V2::RIB_IPV6_MULTICAST_ADDPATH(x) => {
                TableDumpV2View::RIB_IPV6_MULTICAST_ADDPATH(x@)
            },
            TABLE_DUMP_V2::RIB_GENERIC_ADDPATH(x) => TableDumpV2View::RIB_GENERIC_ADDPATH(x@),
        }
    }
}

impl TableDumpV2View {
    /// The subtype code of the variant.
    pub open spec fn sub_type(self) -> u16 {
        match self {
            TableDumpV2View::PEER_INDEX_TABLE(_) => 1,
            TableDumpV2View::RIB_IPV4_UNICAST(_) => 2,
            TableDumpV2View::RIB_IPV4_MULTICAST(_) => 3,
            TableDumpV2View::RIB_IPV6_UNICAST(_) => 4,
            TableDumpV2View::RIB_IPV6_MULTICAST(_) => 5,
            TableDumpV2View::RIB_GENERIC(_) => 6,
            TableDumpV2View::RIB_IPV4_UNICAST_ADDPATH(_) => 8,
            TableDumpV2View::RIB_IPV4_MULTICAST_ADDPATH(_) => 9,
            TableDumpV2View::RIB_IPV6_UNICAST_ADDPATH(_) => 10,
            TableDumpV2View::RIB_IPV6_MULTICAST_ADDPATH(_) => 11,
            TableDumpV2View::RIB_GENERIC_ADDPATH(_) => 12,
        }
    }

    /// Whether the name of a peer index table, encoded as UTF-8, fits behind
    /// its 16-bit length. The other subtypes hold no name.
    pub open spec fn name_fits(self) -> bool {
        self matches TableDumpV2View::PEER_INDEX_TABLE(x) ==> x.name_fits()
    }

    /// Whether the payload can stand on the wire.
    pub open spec fn wf(self) -> bool {
        match self {
            TableDumpV2View::PEER_INDEX_TABLE(x) => x.wf(),
            TableDumpV2View::RIB_IPV4_UNICAST(x) => x.wf(),
            TableDumpV2View::RIB_IPV4_MULTICAST(x) => x.wf(),
            TableDumpV2View::RIB_IPV6_UNICAST(x) => x.wf(),
            TableDumpV2View::RIB_IPV6_MULTICAST(x) => x.wf(),
            TableDumpV2View::RIB_GENERIC(x) => x.wf(),
            TableDumpV2View::RIB_IPV4_UNICAST_ADDPATH(x) => x.wf(),
            TableDumpV2View::RIB_IPV4_MULTICAST_ADDPATH(x) => x.wf(),
            TableDumpV2View::RIB_IPV6_UNICAST_ADDPATH(x) => x.wf(),
            TableDumpV2View::RIB_IPV6_MULTICAST_ADDPATH(x) => x.wf(),
            TableDumpV2View::RIB_GENERIC_ADDPATH(x) => x.wf(),
        }
    }

    /// The bytes that stand for the payload.
    pub open spec fn wire(self) -> Seq<u8> {
        match self {
            TableDumpV2View::PEER_INDEX_TABLE(x) => x.wire(),
            TableDumpV2View::RIB_IPV4_UNICAST(x) => x.wire(),
            TableDumpV2View::RIB_IPV4_MULTICAST(x) => x.wire(),
            TableDumpV2View::RIB_IPV6_UNICAST(x) => x.wire(),
            TableDumpV2View::RIB_IPV6_MULTICAST(x) => x.wire(),
            TableDumpV2View::RIB_GENERIC(x) => x.wire(),
            TableDumpV2View::RIB_IPV4_UNICAST_ADDPATH(x) => x.wire(),
            TableDumpV2View::RIB_IPV4_MULTICAST_ADDPATH(x) => x.wire(),
            TableDumpV2View::RIB_IPV6_UNICAST_ADDPATH(x) => x.wire(),
            TableDumpV2View::RIB_IPV6_MULTICAST_ADDPATH(x) => x.wire(),
            TableDumpV2View::RIB_GENERIC_ADDPATH(x) => x.wire(),
        }
    }

    /// Decoding the bytes of a payload, under its subtype, gives the payload,
    /// and takes those bytes.
    pub proof fn lemma_decode_wire(self, s: Seq<u8>, at: int)
        requires
            self.wf(),
            holds(s, at, self.wire()),
        ensures
            TABLE_DUMP_V2::decode(s, at, self.sub_type()) == taken(self, self.wire().len()),
    {
        match self {
            TableDumpV2View::PEER_INDEX_TABLE(x) => {
                x.lemma_decode_wire(s, at);
            },
            TableDumpV2View::RIB_IPV4_UNICAST(x) => {
                x.lemma_decode_wire(s, at);
            },
            TableDumpV2View::RIB_IPV4_MULTICAST(x) => {
                x.lemma_decode_wire(s, at);
            },
            TableDumpV2View::RIB_IPV6_UNICAST(x) => {
                x.lemma_decode_wire(s, at);
            },
            TableDumpV2View::RIB_IPV6_MULTICAST(x) => {
                x.lemma_decode_wire(s, at);
            },
            TableDumpV2View::RIB_GENERIC(x) => {
                x.lemma_decode_wire(s, at);
            },
            TableDumpV2View::RIB_IPV4_UNICAST_ADDPATH(x) => {
                x.lemma_decode_wire(s, at);
            },
            TableDumpV2View::RIB_IPV4_MULTICAST_ADDPATH(x) => {
                x.lemma_decode_wire(s, at);
            },
            TableDumpV2View::RIB_IPV6_UNICAST_ADDPATH(x) => {
                x.lemma_decode_wire(s, at);
            },
            TableDumpV2View::RIB_IPV6_MULTICAST_ADDPATH(x) => {
                x.lemma_decode_wire(s, at);
            },
            TableDumpV2View::RIB_GENERIC_ADDPATH(x) => {
                x.lemma_decode_wire(s, at);
            },
        }
    }
}

impl TABLE_DUMP_V2 {
    /// What the bytes at `at` stand for under a header with the given
    /// subtype. The ADDPATH subtypes 8 to 12 mirror the subtypes 2 to 6, each
    /// route with a path identifier more. The subtypes 0 and 7, and those
    /// over 12, are undefined.
    pub open spec fn decode(s: Seq<u8>, at: int, sub_type: u16) -> Decoding<TableDumpV2View> {
        if sub_type == 1 {
            map_decoded(
                PEER_INDEX_TABLE::decode(s, at),
                |x: PeerIndexTableView| TableDumpV2View::PEER_INDEX_TABLE(x),
            )
        } else if sub_type == 2 {
            map_decoded(
                RIB_AFI::decode(s, at),
                |x: RibAfiView| TableDumpV2View::RIB_IPV4_UNICAST(x),
            )
        } else if sub_type == 3 {
            map_decoded(
                RIB_AFI::decode(s, at),
                |x: RibAfiView| TableDumpV2View::RIB_IPV4_MULTICAST(x),
            )
        } else if sub_type == 4 {
            map_decoded(
                RIB_AFI::decode(s, at),
                |x: RibAfiView| TableDumpV2View::RIB_IPV6_UNICAST(x),
            )
        } else if sub_type == 5 {
            map_decoded(
                RIB_AFI::decode(s, at),
                |x: RibAfiView| TableDumpV2View::RIB_IPV6_MULTICAST(x),
            )
        } else if sub_type == 6 {
            map_decoded(
                RIB_GENERIC::decode(s, at),
                |x: RibGenericView| TableDumpV2View::RIB_GENERIC(x),
            )
        } else if sub_type == 8 {
            map_decoded(
                RIB_AFI_ADDPATH::decode(s, at),
                |x: RibAfiAddPathView| TableDumpV2View::RIB_IPV4_UNICAST_ADDPATH(x),
            )
        } else if sub_type == 9 {
            map_decoded(
                RIB_AFI_ADDPATH::decode(s, at),
                |x: RibAfiAddPathView| TableDumpV2View::RIB_IPV4_MULTICAST_ADDPATH(x),
            )
        } else if sub_type == 10 {
            map_decoded(
                RIB_AFI_ADDPATH::decode(s, at),
                |x: RibAfiAddPathView| TableDumpV2View::RIB_IPV6_UNICAST_ADDPATH(x),
            )
        } else if sub_type == 11 {
            map_decoded(
                RIB_AFI_ADDPATH::decode(s, at),
                |x: RibAfiAddPathView| TableDumpV2View::RIB_IPV6_MULTICAST_ADDPATH(x),
            )
        } else if sub_type == 12 {
            map_decoded(
                RIB_GENERIC_ADDPATH::decode(s, at),
                |x: RibGenericAddPathView| TableDumpV2View::RIB_GENERIC_ADDPATH(x),
            )
        } else {
            failed(DecodeError::UnknownSubtype(sub_type), 0)
        }
    }

    /// What is decoded is of the subtype asked for, and can stand on the
    /// wire if its name, where it has one, does.
    pub proof fn lemma_decode_wf(s: Seq<u8>, at: int, sub_type: u16)
        ensures
            TABLE_DUMP_V2::decode(s, at, sub_type) matches Ok((v, n)) ==> v.sub_type() == sub_type
                && (v.name_fits() ==> v.wf()),
    {
        PEER_INDEX_TABLE::lemma_decode_wf(s, at);
        RIB_AFI::lemma_decode_wf(s, at);
        RIB_GENERIC::lemma_decode_wf(s, at);
        RIB_AFI_ADDPATH::lemma_decode_wf(s, at);
        RIB_GENERIC_ADDPATH::lemma_decode_wf(s, at);
    }

    /// Reads the payload of a TABLE_DUMP_V2 record: the subtype in the header
    /// picks the layout, and an undefined subtype is an error that names it.
    pub fn parse(header: &Header, stream: &mut ByteStream) -> (r: Result<
        TABLE_DUMP_V2,
        DecodeError,
    >)
        ensures
            decoded(
                r,
                TABLE_DUMP_V2::decode(
                    old(stream).bytes(),
                    old(stream).position() as int,
                    header.sub_type,
                ),
                old(stream),
                final(stream),
            ),
            (header.sub_type == 0 || header.sub_type == 7 || header.sub_type > 12) ==> {
                &&& r matches Err(e)
                &&& e == DecodeError::UnknownSubtype(header.sub_type)
                &&& final(stream).position() == old(stream).position()
            },
    {
        match header.sub_type {
            1 => Ok(TABLE_DUMP_V2::PEER_INDEX_TABLE(PEER_INDEX_TABLE::parse(stream)?)),
            2 => Ok(TABLE_DUMP_V2::RIB_IPV4_UNICAST(RIB_AFI::parse(stream)?)),
            3 => Ok(TABLE_DUMP_V2::RIB_IPV4_MULTICAST(RIB_AFI::parse(stream)?)),
            4 => Ok(TABLE_DUMP_V2::RIB_IPV6_UNICAST(RIB_AFI::parse(stream)?)),
            5 => Ok(TABLE_DUMP_V2::RIB_IPV6_MULTICAST(RIB_AFI::parse(stream)?)),
            6 => Ok(TABLE_DUMP_V2::RIB_GENERIC(RIB_GENERIC::parse(stream)?)),
            8 => Ok(TABLE_DUMP_V2::RIB_IPV4_UNICAST_ADDPATH(RIB_AFI_ADDPATH::parse(stream)?)),
            9 => Ok(TABLE_DUMP_V2::RIB_IPV4_MULTICAST_ADDPATH(RIB_AFI_ADDPATH::parse(stream)?)),
            10 => Ok(TABLE_DUMP_V2::RIB_IPV6_UNICAST_ADDPATH(RIB_AFI_ADDPATH::parse(stream)?)),
            11 => Ok(TABLE_DUMP_V2::RIB_IPV6_MULTICAST_ADDPATH(RIB_AFI_ADDPATH::parse(stream)?)),
            12 => Ok(TABLE_DUMP_V2::RIB_GENERIC_ADDPATH(RIB_GENERIC_ADDPATH::parse(stream)?)),
            x => Err(DecodeError::UnknownSubtype(x)),
        }
    }
}

} // verus!
