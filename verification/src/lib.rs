//! Decoder for streams of MRT records (RFC 6396): routing-protocol messages
//! and routing-table snapshots as archived by route collectors.

use crate::error::DecodeError;
use crate::records::bgp4mp::BGP4MP;
use crate::records::bgp4mp::Bgp4mpView;
use crate::records::bgp4plus::BGP4PLUS;
use crate::records::bgp4plus::Bgp4plusView;
use crate::records::bgp::BGP;
use crate::records::bgp::BgpView;
use crate::records::ospf::OSPFv2;
use crate::records::ospf::Ospfv2View;
use crate::records::ospf::OSPFv3;
use crate::records::ospf::Ospfv3View;
use crate::records::rip::RIP;
use crate::records::rip::RIPNG;
use crate::records::rip::RipngView;
use crate::records::rip::RipView;
use crate::records::tabledump::TABLE_DUMP;
use crate::records::tabledump::TABLE_DUMP_V2;
use crate::records::tabledump::TableDumpV2View;
use crate::records::tabledump::TableDumpView;
use crate::stream::ByteStream;
use crate::stream::decoded;
use crate::wire::available;
use crate::wire::be_u16;
use crate::wire::be_u32;
use crate::wire::Decoding;
use crate::wire::failed;
use crate::wire::holds;
use crate::wire::lemma_be_u16_holds;
use crate::wire::lemma_be_u32_holds;
use crate::wire::lemma_holds_after;
use crate::wire::lemma_holds_split;
use crate::wire::lemma_int_bytes_len;
use crate::wire::map_decoded;
use crate::wire::taken;
use crate::wire::truncated;
use crate::wire::u16_bytes;
use crate::wire::u32_bytes;
use vstd::prelude::*;

/// Network addresses.
pub mod addr;

/// The errors of decoding.
pub mod error;

/// The implementation of all record types.
pub mod records;

/// The byte source.
pub mod stream;

/// Big-endian integers and other primitives of the wire format.
pub mod wire;

pub use records::bgp;
pub use records::bgp4mp;
pub use records::bgp4plus;
pub use records::isis;
pub use records::ospf;
pub use records::rip;
pub use records::tabledump;

verus! {

/// An address family: the tag that selects the width of the addresses that
/// follow it on the wire.
#[derive(Clone, Copy, Debug, PartialEq, Eq, Structural)]
pub enum AFI {
    /// Internet Protocol version 4 (32 bits).
    IPV4,
    /// Internet Protocol version 6 (128 bits).
    IPV6,
}

/// The envelope that precedes every record.
#[derive(Clone, Copy, Debug, PartialEq, Eq, Structural)]
pub struct Header {
    /// The time at which the record was generated, in UNIX seconds.
    pub timestamp: u32,
    /// The microseconds of that time; zero unless the record type is one with
    /// an extended timestamp.
    pub extended: u32,
    /// The type of the record.
    pub record_type: u16,
    /// The subtype of the record.
    pub sub_type: u16,
    /// The length in bytes of the record, without this header.
    pub length: u32,
}

impl View for Header {
    type V = Header;

    open spec fn view(&self) -> Header {
        *self
    }
}

impl View for AFI {
    type V = AFI;

    open spec fn view(&self) -> AFI {
        *self
    }
}

impl AFI {
    /// The family that a wire code stands for, if any.
    pub open spec fn of_code(value: u16) -> Option<AFI> {
        if value == 1 {
            Some(AFI::IPV4)
        } else if value == 2 {
            Some(AFI::IPV6)
        } else {
            None
        }
    }

    /// The wire code of the family.
    pub open spec fn code(self) -> u16 {
        match self {
            AFI::IPV4 => 1,
            AFI::IPV6 => 2,
        }
    }

    /// The width in bytes of an address of this family.
    pub open spec fn width(self) -> int {
        match self {
            AFI::IPV4 => 4,
            AFI::IPV6 => 16,
        }
    }

    /// Resolves a wire code: 1 is IPv4, 2 is IPv6, anything else is an error
    /// that carries the code.
    pub fn from(value: u16) -> (r: Result<AFI, DecodeError>)
        ensures
            r == match AFI::of_code(value) {
                Some(afi) => Ok::<AFI, DecodeError>(afi),
                None => Err(DecodeError::InvalidAfi(value)),
            },
    {
        match value {
            1 => Ok(AFI::IPV4),
            2 => Ok(AFI::IPV6),
            _ => Err(DecodeError::InvalidAfi(value)),
        }
    }

    /// Returns the size in bytes of an address of this family.
    pub fn size(&self) -> (r: u32)
        ensures
            r == self.width(),
    {
        match self {
            AFI::IPV4 => 4,
            AFI::IPV6 => 16,
        }
    }
}

impl Header {
    /// Whether records of the type carry the microseconds of their time
    /// behind the header: the BGP4MP_ET, ISIS_ET and OSPFv3_ET types.
    pub open spec fn is_extended_type(record_type: u16) -> bool {
        record_type == 17 || record_type == 33 || record_type == 49
    }

    /// The size on the wire of the header of a record of the given type: 12
    /// bytes, and 4 more exactly where the type has an extended timestamp.
    pub open spec fn wire_len(record_type: u16) -> int {
        if Header::is_extended_type(record_type) {
            16
        } else {
            12
        }
    }

    /// The 12 bytes of the base header at `at`: time, type, subtype and
    /// length, in this order. The microseconds are not among them.
    pub open spec fn at(s: Seq<u8>, at: int) -> Header {
        Header {
            timestamp: be_u32(s, at),
            extended: 0,
            record_type: be_u16(s, at + 4),
            sub_type: be_u16(s, at + 6),
            length: be_u32(s, at + 8),
        }
    }

    /// What the bytes at `at` stand for. Where not one byte is left, there
    /// is no header and nothing is wrong: the records have come to their
    /// end. Fewer than 12 bytes are a truncated header.
    pub open spec fn decode(s: Seq<u8>, at: int) -> Decoding<Option<Header>> {
        if !available(s, at, 1) {
            Ok((None, 0nat))
        } else if !available(s, at, 12) {
            truncated(s, at)
        } else {
            Ok((Some(Header::at(s, at)), 12nat))
        }
    }

    /// The bytes that stand for the header; the microseconds are among them
    /// exactly where the type has an extended timestamp.
    pub open spec fn wire(self) -> Seq<u8> {
        u32_bytes(self.timestamp) + u16_bytes(self.record_type) + u16_bytes(self.sub_type)
            + u32_bytes(self.length) + if Header::is_extended_type(self.record_type) {
            u32_bytes(self.extended)
        } else {
            Seq::empty()
        }
    }

    /// Reading back the bytes of a header gives the header, if its
    /// microseconds are zero where its type has none.
    pub proof fn lemma_at_wire(self, s: Seq<u8>, at: int)
        requires
            !Header::is_extended_type(self.record_type) ==> self.extended == 0,
            holds(s, at, self.wire()),
        ensures
            self.wire().len() == Header::wire_len(self.record_type),
            Record::header_at(s, at) == self,
    {
        lemma_int_bytes_len();
        let part1 = u32_bytes(self.timestamp);
        let part2 = u16_bytes(self.record_type);
        let part3 = u16_bytes(self.sub_type);
        let part4 = u32_bytes(self.length);
        let part5 = if Header::is_extended_type(self.record_type) {
            u32_bytes(self.extended)
        } else {
            Seq::empty()
        };
        lemma_holds_split(s, at, part1 + part2 + part3 + part4, part5);
        lemma_holds_split(s, at, part1 + part2 + part3, part4);
        lemma_holds_split(s, at, part1 + part2, part3);
        lemma_holds_split(s, at, part1, part2);
        lemma_be_u32_holds(s, at, self.timestamp);
        lemma_be_u16_holds(s, at + 4, self.record_type);
        lemma_be_u16_holds(s, at + 6, self.sub_type);
        lemma_be_u32_holds(s, at + 8, self.length);
        if Header::is_extended_type(self.record_type) {
            lemma_be_u32_holds(s, at + 12, self.extended);
        }
    }

    /// Reads the 12 bytes of a base header, or finds the stream at its end.
    /// The microseconds of an extended timestamp are left to the caller.
    pub fn parse(stream: &mut ByteStream) -> (r: Result<Option<Header>, DecodeError>)
        ensures
            decoded(
                r,
                Header::decode(old(stream).bytes(), old(stream).position() as int),
                old(stream),
                final(stream),
            ),
    {
        if stream.at_end() {
            return Ok(None);
        }
        let timestamp = stream.read_u32()?;
        let record_type = stream.read_u16()?;
        let sub_type = stream.read_u16()?;
        let length = stream.read_u32()?;
        Ok(Some(Header { timestamp, extended: 0, record_type, sub_type, length }))
    }
}

/// A single MRT record: one variant for each record type.
#[derive(Debug, PartialEq, Eq)]
#[allow(non_camel_case_types)]
pub enum Record {
    /// No payload.
    NULL,
    /// The collector has started; no payload.
    START,
    /// The collector stops; no payload.
    DIE,
    /// No payload.
    I_AM_DEAD,
    /// A peer has gone down; no payload.
    PEER_DOWN,
    /// A deprecated BGP record, for IPv4 peers.
    BGP(BGP),
    /// A RIP message.
    RIP(RIP),
    /// No payload.
    IDRP,
    /// A RIPng message.
    RIPNG(RIPNG),
    /// A deprecated BGP record, for IPv6 peers.
    BGP4PLUS(BGP4PLUS),
    /// A deprecated BGP record, for IPv6 peers, under the second of its two type codes.
    BGP4PLUS_01(BGP4PLUS),
    /// An OSPFv2 message.
    OSPFv2(OSPFv2),
    /// A route of a routing table, in the legacy form.
    TABLE_DUMP(TABLE_DUMP),
    /// A part of a routing table.
    TABLE_DUMP_V2(TABLE_DUMP_V2),
    /// A BGP message or state change.
    BGP4MP(BGP4MP),
    /// A BGP message or state change, its time in microseconds.
    BGP4MP_ET(BGP4MP),
    /// An ISIS message, undecoded.
    ISIS(Vec<u8>),
    /// An ISIS message, undecoded, its time in microseconds.
    ISIS_ET(Vec<u8>),
    /// An OSPFv3 message.
    OSPFv3(OSPFv3),
    /// An OSPFv3 message, its time in microseconds.
    OSPFv3_ET(OSPFv3),
}

/// What a [`Record`] holds, as mathematical values.
#[allow(non_camel_case_types)]
pub ghost enum RecordView {
    NULL,
    START,
    DIE,
    I_AM_DEAD,
    PEER_DOWN,
    BGP(BgpView),
    RIP(RipView),
    IDRP,
    RIPNG(RipngView),
    BGP4PLUS(Bgp4plusView),
    BGP4PLUS_01(Bgp4plusView),
    OSPFv2(Ospfv2View),
    TABLE_DUMP(TableDumpView),
    TABLE_DUMP_V2(TableDumpV2View),
    BGP4MP(Bgp4mpView),
    BGP4MP_ET(Bgp4mpView),
    ISIS(Seq<u8>),
    ISIS_ET(Seq<u8>),
    OSPFv3(Ospfv3View),
    OSPFv3_ET(Ospfv3View),
}

impl View for Record {
    type V = RecordView;

    open spec fn view(&self) -> RecordView {
        match self {
            Record::NULL => RecordView::NULL,
            Record::START => RecordView::START,
            Record::DIE => RecordView::DIE,
            Record::I_AM_DEAD => RecordView::I_AM_DEAD,
            Record::PEER_DOWN => RecordView::PEER_DOWN,
            Record::BGP(x) => RecordView::BGP(x@),
            Record::RIP(x) => RecordView::RIP(x@),
            Record::IDRP => RecordView::IDRP,
            Record::RIPNG(x) => RecordView::RIPNG(x@),
            Record::BGP4PLUS(x) => RecordView::BGP4PLUS(x@),
            Record::BGP4PLUS_01(x) => RecordView::BGP4PLUS_01(x@),
            Record::OSPFv2(x) => RecordView::OSPFv2(x@),
            Record::TABLE_DUMP(x) => RecordView::TABLE_DUMP(x@),
            Record::TABLE_DUMP_V2(x) => RecordView::TABLE_DUMP_V2(x@),
            Record::BGP4MP(x) => RecordView::BGP4MP(x@),
            Record::BGP4MP_ET(x) => RecordView::BGP4MP_ET(x@),
            Record::ISIS(x) => RecordView::ISIS(x@),
            Record::ISIS_ET(x) => RecordView::ISIS_ET(x@),
            Record::OSPFv3(x) => RecordView::OSPFv3(x@),
            Record::OSPFv3_ET(x) => RecordView::OSPFv3_ET(x@),
        }
    }
}

impl RecordView {
    /// The record type code of the variant.
    pub open spec fn record_type(self) -> u16 {
        match self {
            RecordView::NULL => 0,
            RecordView::START => 1,
            RecordView::DIE => 2,
            RecordView::I_AM_DEAD => 3,
            RecordView::PEER_DOWN => 4,
            RecordView::BGP(_) => 5,
            RecordView::RIP(_) => 6,
            RecordView::IDRP => 7,
            RecordView::RIPNG(_) => 8,
            RecordView::BGP4PLUS(_) => 9,
            RecordView::BGP4PLUS_01(_) => 10,
            RecordView::OSPFv2(_) => 11,
            RecordView::TABLE_DUMP(_) => 12,
            RecordView::TABLE_DUMP_V2(_) => 13,
            RecordView::BGP4MP(_) => 16,
            RecordView::BGP4MP_ET(_) => 17,
            RecordView::ISIS(_) => 32,
            RecordView::ISIS_ET(_) => 33,
            RecordView::OSPFv3(_) => 48,
            RecordView::OSPFv3_ET(_) => 49,
        }
    }

    /// Whether the name of a peer index table, encoded as UTF-8, fits behind
    /// its 16-bit length. No other record holds text.
    pub open spec fn name_fits(self) -> bool {
        self matches RecordView::TABLE_DUMP_V2(x) ==> x.name_fits()
    }

    /// Whether the record can stand on the wire under the header `h`: the
    /// header has the variant's type and the payload's subtype, its
    /// microseconds are zero where the type has none, its length is the one
    /// that a payload of derived length asks for, and the payload itself
    /// can stand on the wire.
    pub open spec fn wf(self, h: Header) -> bool {
        &&& h.record_type == self.record_type()
        &&& !Header::is_extended_type(h.record_type) ==> h.extended == 0
        &&& match self {
            RecordView::NULL => true,
            RecordView::START => true,
            RecordView::DIE => true,
            RecordView::I_AM_DEAD => true,
            RecordView::PEER_DOWN => true,
            RecordView::BGP(x) => x.sub_type() == h.sub_type && x.wf(h.length),
            RecordView::RIP(x) => x.wf(h.length),
            RecordView::IDRP => true,
            RecordView::RIPNG(x) => x.wf(h.length),
            RecordView::BGP4PLUS(x) => x.sub_type() == h.sub_type && x.wf(h.length),
            RecordView::BGP4PLUS_01(x) => x.sub_type() == h.sub_type && x.wf(h.length),
            RecordView::OSPFv2(x) => x.wf(h.length),
            RecordView::TABLE_DUMP(x) => x.sub_type() == h.sub_type && x.wf(),
            RecordView::TABLE_DUMP_V2(x) => x.sub_type() == h.sub_type && x.wf(),
            RecordView::BGP4MP(x) => x.sub_type() == h.sub_type && x.wf(h.length),
            RecordView::BGP4MP_ET(x) => x.sub_type() == h.sub_type && x.wf(h.length),
            RecordView::ISIS(x) => isis::wf(x, h.length),
            RecordView::ISIS_ET(x) => isis::wf(x, h.length),
            RecordView::OSPFv3(x) => x.wf(h.length),
            RecordView::OSPFv3_ET(x) => x.wf(h.length),
        }
    }

    /// The bytes that stand for the payload.
    pub open spec fn wire_payload(self) -> Seq<u8> {
        match self {
            RecordView::NULL => Seq::empty(),
            RecordView::START => Seq::empty(),
            RecordView::DIE => Seq::empty(),
            RecordView::I_AM_DEAD => Seq::empty(),
            RecordView::PEER_DOWN => Seq::empty(),
            RecordView::BGP(x) => x.wire(),
            RecordView::RIP(x) => x.wire(),
            RecordView::IDRP => Seq::empty(),
            RecordView::RIPNG(x) => x.wire(),
            RecordView::BGP4PLUS(x) => x.wire(),
            RecordView::BGP4PLUS_01(x) => x.wire(),
            RecordView::OSPFv2(x) => x.wire(),
            RecordView::TABLE_DUMP(x) => x.wire(),
            RecordView::TABLE_DUMP_V2(x) => x.wire(),
            RecordView::BGP4MP(x) => x.wire(),
            RecordView::BGP4MP_ET(x) => x.wire(),
            RecordView::ISIS(x) => x,
            RecordView::ISIS_ET(x) => x,
            RecordView::OSPFv3(x) => x.wire(),
            RecordView::OSPFv3_ET(x) => x.wire(),
        }
    }

    /// The bytes that stand for the record under the header `h`: the header,
    /// then the payload.
    pub open spec fn wire(self, h: Header) -> Seq<u8> {
        h.wire() + self.wire_payload()
    }

    /// Decoding the bytes of a payload, under a header that fits it, gives
    /// the payload, and takes those bytes.
    pub proof fn lemma_decode_payload_wire(self, h: Header, s: Seq<u8>, at: int)
        requires
            self.wf(h),
            holds(s, at, self.wire_payload()),
        ensures
            Record::decode_payload(s, at, h) == taken(self, self.wire_payload().len()),
    {
        match self {
            RecordView::NULL => {},
            RecordView::START => {},
            RecordView::DIE => {},
            RecordView::I_AM_DEAD => {},
            RecordView::PEER_DOWN => {},
            RecordView::BGP(x) => {
                x.lemma_decode_wire(s, at, h.length);
            },
            RecordView::RIP(x) => {
                x.lemma_decode_wire(s, at, h.length);
            },
            RecordView::IDRP => {},
            RecordView::RIPNG(x) => {
                x.lemma_decode_wire(s, at, h.length);
            },
            RecordView::BGP4PLUS(x) => {
                x.lemma_decode_wire(s, at, h.length);
            },
            RecordView::BGP4PLUS_01(x) => {
                x.lemma_decode_wire(s, at, h.length);
            },
            RecordView::OSPFv2(x) => {
                x.lemma_decode_wire(s, at, h.length);
            },
            RecordView::TABLE_DUMP(x) => {
                x.lemma_decode_wire(s, at);
            },
            RecordView::TABLE_DUMP_V2(x) => {
                x.lemma_decode_wire(s, at);
            },
            RecordView::BGP4MP(x) => {
                x.lemma_decode_wire(s, at, h.length);
            },
            RecordView::BGP4MP_ET(x) => {
                x.lemma_decode_wire(s, at, h.length);
            },
            RecordView::ISIS(x) => {
                isis::lemma_decode_wire(x, s, at, h.length);
            },
            RecordView::ISIS_ET(x) => {
                isis::lemma_decode_wire(x, s, at, h.length);
            },
            RecordView::OSPFv3(x) => {
                x.lemma_decode_wire(s, at, h.length);
            },
            RecordView::OSPFv3_ET(x) => {
                x.lemma_decode_wire(s, at, h.length);
            },
        }
    }
}

impl RecordView {
    /// Decoding the bytes of a record that can stand on the wire gives the
    /// record and its header, and takes those bytes.
    pub proof fn lemma_decode_wire(self, h: Header, s: Seq<u8>, at: int)
        requires
            self.wf(h),
            holds(s, at, self.wire(h)),
        ensures
            Record::decode(s, at) == Record::found(h, self, self.wire(h).len()),
    {
        lemma_holds_split(s, at, h.wire(), self.wire_payload());
        h.lemma_at_wire(s, at);
        self.lemma_decode_payload_wire(h, s, at + Header::wire_len(h.record_type));
    }
}

impl Record {
    /// What the bytes at `at` stand for as the payload of a record with the
    /// header `h`: the record type picks the decoder, and an undefined type
    /// is an error that carries it. Six types have no payload.
    pub open spec fn decode_payload(s: Seq<u8>, at: int, h: Header) -> Decoding<RecordView> {
        if h.record_type == 0 {
            Ok((RecordView::NULL, 0nat))
        } else if h.record_type == 1 {
            Ok((RecordView::START, 0nat))
        } else if h.record_type == 2 {
            Ok((RecordView::DIE, 0nat))
        } else if h.record_type == 3 {
            Ok((RecordView::I_AM_DEAD, 0nat))
        } else if h.record_type == 4 {
            Ok((RecordView::PEER_DOWN, 0nat))
        } else if h.record_type == 5 {
            map_decoded(BGP::decode(s, at, h.sub_type, h.length), |x: BgpView| RecordView::BGP(x))
        } else if h.record_type == 6 {
            map_decoded(RIP::decode(s, at, h.length), |x: RipView| RecordView::RIP(x))
        } else if h.record_type == 7 {
            Ok((RecordView::IDRP, 0nat))
        } else if h.record_type == 8 {
            map_decoded(RIPNG::decode(s, at, h.length), |x: RipngView| RecordView::RIPNG(x))
        } else if h.record_type == 9 {
            map_decoded(
                BGP4PLUS::decode(s, at, h.sub_type, h.length),
                |x: Bgp4plusView| RecordView::BGP4PLUS(x),
            )
        } else if h.record_type == 10 {
            map_decoded(
                BGP4PLUS::decode(s, at, h.sub_type, h.length),
                |x: Bgp4plusView| RecordView::BGP4PLUS_01(x),
            )
        } else if h.record_type == 11 {
            map_decoded(OSPFv2::decode(s, at, h.length), |x: Ospfv2View| RecordView::OSPFv2(x))
        } else if h.record_type == 12 {
            map_decoded(
                TABLE_DUMP::decode(s, at, h.sub_type),
                |x: TableDumpView| RecordView::TABLE_DUMP(x),
            )
        } else if h.record_type == 13 {
            map_decoded(
                TABLE_DUMP_V2::decode(s, at, h.sub_type),
                |x: TableDumpV2View| RecordView::TABLE_DUMP_V2(x),
            )
        } else if h.record_type == 16 {
            map_decoded(
                BGP4MP::decode(s, at, h.sub_type, h.length),
                |x: Bgp4mpView| RecordView::BGP4MP(x),
            )
        } else if h.record_type == 17 {
            map_decoded(
                BGP4MP::decode(s, at, h.sub_type, h.length),
                |x: Bgp4mpView| RecordView::BGP4MP_ET(x),
            )
        } else if h.record_type == 32 {
            map_decoded(isis::decode(s, at, h.length), |x: Seq<u8>| RecordView::ISIS(x))
        } else if h.record_type == 33 {
            map_decoded(isis::decode(s, at, h.length), |x: Seq<u8>| RecordView::ISIS_ET(x))
        } else if h.record_type == 48 {
            map_decoded(OSPFv3::decode(s, at, h.length), |x: Ospfv3View| RecordView::OSPFv3(x))
        } else if h.record_type == 49 {
            map_decoded(OSPFv3::decode(s, at, h.length), |x: Ospfv3View| RecordView::OSPFv3_ET(x))
        } else {
            failed(DecodeError::UnknownRecordType(h.record_type), 0)
        }
    }

    /// Whether the format defines the record type.
    pub open spec fn is_defined(record_type: u16) -> bool {
        record_type <= 13 || record_type == 16 || record_type == 17 || record_type == 32
            || record_type == 33 || record_type == 48 || record_type == 49
    }

    /// The header of the record at `at`, its microseconds read from behind
    /// the base header where the type has an extended timestamp.
    pub open spec fn header_at(s: Seq<u8>, at: int) -> Header {
        let base = Header::at(s, at);
        if Header::is_extended_type(base.record_type) {
            Header { extended: be_u32(s, at + 12), ..base }
        } else {
            base
        }
    }

    /// The decoding that gives the record `v` under the header `h` and takes
    /// `n` bytes for the two.
    pub open spec fn found(h: Header, v: RecordView, n: nat) -> Result<
        Option<(Header, RecordView, nat)>,
        (DecodeError, nat),
    > {
        Ok(Some((h, v, n)))
    }

    /// What the bytes at `at` stand for: `None` where the stream ends at
    /// `at`; else one record with its header and the number of bytes that
    /// the two take; or the first error on the way, with the number of bytes
    /// that are read when it is found. An undefined record type is found
    /// behind the 12 bytes of the base header, before the microseconds or
    /// any payload is read. A stream that ends inside the record is read to
    /// its end.
    pub open spec fn decode(s: Seq<u8>, at: int) -> Result<
        Option<(Header, RecordView, nat)>,
        (DecodeError, nat),
    > {
        if !available(s, at, 1) {
            Ok(None)
        } else if !available(s, at, 12) {
            Err((DecodeError::Truncated, (s.len() - at) as nat))
        } else {
            let h = Record::header_at(s, at);
            let len = Header::wire_len(h.record_type);
            if !Record::is_defined(h.record_type) {
                Err((DecodeError::UnknownRecordType(h.record_type), 12nat))
            } else if !available(s, at, len) {
                Err((DecodeError::Truncated, (s.len() - at) as nat))
            } else {
                match Record::decode_payload(s, at + len, h) {
                    Err((e, k)) => Err((e, (len + k) as nat)),
                    Ok((v, n)) => Ok(Some((h, v, (len + n) as nat))),
                }
            }
        }
    }

    /// A payload that is decoded is of the header's type and subtype and can
    /// stand on the wire under it, if its name, where it has one, can.
    pub proof fn lemma_decode_payload_wf(s: Seq<u8>, at: int, h: Header)
        requires
            !Header::is_extended_type(h.record_type) ==> h.extended == 0,
        ensures
            Record::decode_payload(s, at, h) matches Ok((v, n)) ==> (v.name_fits() ==> v.wf(h)),
    {
        BGP::lemma_decode_wf(s, at, h.sub_type, h.length);
        RIP::lemma_decode_wf(s, at, h.length);
        RIPNG::lemma_decode_wf(s, at, h.length);
        BGP4PLUS::lemma_decode_wf(s, at, h.sub_type, h.length);
        OSPFv2::lemma_decode_wf(s, at, h.length);
        TABLE_DUMP::lemma_decode_wf(s, at, h.sub_type);
        TABLE_DUMP_V2::lemma_decode_wf(s, at, h.sub_type);
        BGP4MP::lemma_decode_wf(s, at, h.sub_type, h.length);
        OSPFv3::lemma_decode_wf(s, at, h.length);
    }

    /// Reads the payload of a record whose header has been read: the record
    /// type picks the decoder. An undefined type is refused before a byte is
    /// read.
    pub fn parse(header: &Header, stream: &mut ByteStream) -> (r: Result<Record, DecodeError>)
        ensures
            decoded(
                r,
                Record::decode_payload(
                    old(stream).bytes(),
                    old(stream).position() as int,
                    *header,
                ),
                old(stream),
                final(stream),
            ),
    {
        match header.record_type {
            0 => Ok(Record::NULL),
            1 => Ok(Record::START),
            2 => Ok(Record::DIE),
            3 => Ok(Record::I_AM_DEAD),
            4 => Ok(Record::PEER_DOWN),
            5 => {
                let record = BGP::parse(header, stream)?;
                Ok(Record::BGP(record))
            },
            6 => {
                let record = RIP::parse(header, stream)?;
                Ok(Record::RIP(record))
            },
            7 => Ok(Record::IDRP),
            8 => {
                let record = RIPNG::parse(header, stream)?;
                Ok(Record::RIPNG(record))
            },
            9 => {
                let record = BGP4PLUS::parse(header, stream)?;
                Ok(Record::BGP4PLUS(record))
            },
            10 => {
                let record = BGP4PLUS::parse(header, stream)?;
                Ok(Record::BGP4PLUS_01(record))
            },
            11 => {
                let record = OSPFv2::parse(header, stream)?;
                Ok(Record::OSPFv2(record))
            },
            12 => {
                let record = TABLE_DUMP::parse(header, stream)?;
                Ok(Record::TABLE_DUMP(record))
            },
            13 => {
                let record = TABLE_DUMP_V2::parse(header, stream)?;
                Ok(Record::TABLE_DUMP_V2(record))
            },
            16 => {
                let record = BGP4MP::parse(header, stream)?;
                Ok(Record::BGP4MP(record))
            },
            17 => {
                let record = BGP4MP::parse(header, stream)?;
                Ok(Record::BGP4MP_ET(record))
            },
            32 => {
                let record = isis::parse(header, stream)?;
                Ok(Record::ISIS(record))
            },
            33 => {
                let record = isis::parse(header, stream)?;
                Ok(Record::ISIS_ET(record))
            },
            48 => {
                let record = OSPFv3::parse(header, stream)?;
                Ok(Record::OSPFv3(record))
            },
            49 => {
                let record = OSPFv3::parse(header, stream)?;
                Ok(Record::OSPFv3_ET(record))
            },
            x => Err(DecodeError::UnknownRecordType(x)),
        }
    }
}

/// Reads the next record of the stream with its header, or `None` where the
/// stream has come to its end. Call it until it returns `None` or an error:
/// after an error the cursor stands where the error was found, inside the
/// record that failed, and the format has no marker from which to go on.
pub fn read(stream: &mut ByteStream) -> (r: Result<Option<(Header, Record)>, DecodeError>)
    ensures
        final(stream).follows(old(stream)),
        match Record::decode(old(stream).bytes(), old(stream).position() as int) {
            Ok(Some((h, v, n))) => {
                &&& r matches Ok(Some((header, record)))
                &&& header == h
                &&& record@ == v
                &&& final(stream).position() == old(stream).position() + n
            },
            Ok(None) => r matches Ok(None) && final(stream).position() == old(stream).position(),
            Err((e, n)) => {
                &&& r matches Err(x)
                &&& x == e
                &&& final(stream).position() == old(stream).position() + n
            },
        },
{
    let mut header = match Header::parse(stream)? {
        None => {
            return Ok(None);
        },
        Some(header) => header,
    };
    match header.record_type {
        17 | 33 | 49 => {
            header.extended = stream.read_u32()?;
        },
        _ => {},
    }
    let record = Record::parse(&header, stream)?;
    Ok(Some((header, record)))
}

/// A record type has an extended timestamp if and only if exactly one more
/// 32-bit field is read behind the 12 bytes of the base header: whenever a
/// record is decoded, its payload starts 16 bytes behind the start of the
/// record and the header's microseconds are those 4 bytes where the type is
/// one of the three with an extended timestamp, and else the payload starts
/// 12 bytes behind it and the microseconds are zero.
pub proof fn lemma_extended_timestamp(s: Seq<u8>, at: int)
    requires
        Record::decode(s, at) matches Ok(Some(_)),
    ensures
        ({
            let (h, v, n) = Record::decode(s, at)->Ok_0->Some_0;
            let extra: int = if Header::is_extended_type(h.record_type) {
                4
            } else {
                0
            };
            &&& Header::is_extended_type(h.record_type) <==> h.record_type == 17 || h.record_type
                == 33 || h.record_type == 49
            &&& Header::is_extended_type(h.record_type) ==> h.extended == be_u32(s, at + 12)
            &&& !Header::is_extended_type(h.record_type) ==> h.extended == 0
            &&& n >= 12 + extra
            &&& Record::decode_payload(s, at + 12 + extra, h) == taken(v, (n - 12 - extra) as nat)
        }),
{
}

/// What is decoded can stand on the wire under its header, if its name,
/// where it has one, can. Only the name of a peer index table can fail to:
/// where the bytes on the wire were not UTF-8, the repaired name may be
/// longer than a 16-bit length can say.
pub proof fn lemma_decode_wf(s: Seq<u8>, at: int)
    ensures
        Record::decode(s, at) matches Ok(Some((h, v, n))) ==> (v.name_fits() ==> v.wf(h)),
{
    if Record::decode(s, at) is Ok && Record::decode(s, at)->Ok_0 is Some {
        let h = Record::header_at(s, at);
        Record::lemma_decode_payload_wf(s, at + Header::wire_len(h.record_type), h);
    }
}

/// Round trip: the bytes that stand for a decoded record and its header,
/// decoded again, give the same record and the same header, and are taken
/// whole.
pub proof fn lemma_round_trip(s: Seq<u8>, at: int)
    requires
        Record::decode(s, at) matches Ok(Some((h, v, n))) && v.name_fits(),
    ensures
        ({
            let (h, v, n) = Record::decode(s, at)->Ok_0->Some_0;
            Record::decode(v.wire(h), 0) == Record::found(h, v, v.wire(h).len())
        }),
{
    let (h, v, n) = Record::decode(s, at)->Ok_0->Some_0;
    lemma_decode_wf(s, at);
    lemma_holds_after(Seq::empty(), v.wire(h), Seq::empty());
    assert(Seq::<u8>::empty() + v.wire(h) + Seq::<u8>::empty() =~= v.wire(h));
    v.lemma_decode_wire(h, v.wire(h), 0);
}

} // verus!
