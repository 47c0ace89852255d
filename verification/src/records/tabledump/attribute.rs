use crate::error::DecodeError;
use crate::records::tabledump::read_be_u32;
use crate::stream::ByteStream;
use crate::stream::decoded;
use crate::wire::available;
use crate::wire::be_u16;
use crate::wire::be_u32;
use crate::wire::Decoding;
use crate::wire::failed;
use crate::wire::taken;
use crate::wire::truncated;
use vstd::prelude::*;

verus! {

/// The ORIGIN attribute (type code 1): how the route came to be known.
#[derive(Clone, Copy, Debug, PartialEq, Eq, Structural)]
pub enum Origin {
    /// Value 0: the route is interior to the originating AS.
    IGP,
    /// Value 1: the route was learned via EGP.
    EGP,
    /// Value 2: the route was learned by some other means.
    INCOMPLETE,
}

/// The type of a path segment: whether its AS numbers are in order.
#[derive(Clone, Copy, Debug, PartialEq, Eq, Structural)]
#[allow(non_camel_case_types)]
pub enum SegmentType {
    /// Value 1: an unordered set of the ASes that a route has traversed.
    AS_SET,
    /// Value 2: the ASes that a route has traversed, in order.
    AS_SEQUENCE,
}

/// The AS_PATH attribute (type code 2): one path segment.
#[derive(Debug, PartialEq, Eq)]
pub struct AsPath {
    /// Whether the AS numbers are a set or a sequence.
    pub segment_type: SegmentType,
    /// The AS numbers of the segment.
    pub as_path: Vec<u32>,
}

/// A path attribute of a route (RFC 4271, section 5.1).
#[derive(Debug, PartialEq, Eq)]
pub enum PathAttribute {
    /// Type code 1: the origin of the path information.
    ORIGIN(Origin),
    /// Type code 2: the ASes that the route has traversed.
    ASPATH(AsPath),
    /// Type code 3.
    NEXTHOP,
    /// Type code 4.
    MULTIEXITDISC,
    /// Type code 5.
    LOCALPREF,
    /// Type code 6.
    ATOMICAGGREGATE,
    /// Type code 7.
    AGGREGATOR,
}

impl View for Origin {
    type V = Origin;

    open spec fn view(&self) -> Origin {
        *self
    }
}

impl View for SegmentType {
    type V = SegmentType;

    open spec fn view(&self) -> SegmentType {
        *self
    }
}

/// What an [`AsPath`] holds, as mathematical values.
pub ghost struct AsPathView {
    pub segment_type: SegmentType,
    pub as_path: Seq<u32>,
}

impl View for AsPath {
    type V = AsPathView;

    open spec fn view(&self) -> AsPathView {
        AsPathView { segment_type: self.segment_type, as_path: self.as_path@ }
    }
}

/// What a [`PathAttribute`] holds, as mathematical values.
pub ghost enum PathAttributeView {
    ORIGIN(Origin),
    ASPATH(AsPathView),
    NEXTHOP,
    MULTIEXITDISC,
    LOCALPREF,
    ATOMICAGGREGATE,
    AGGREGATOR,
}

impl View for PathAttribute {
    type V = PathAttributeView;

    open spec fn view(&self) -> PathAttributeView {
        match self {
            PathAttribute::ORIGIN(x) => PathAttributeView::ORIGIN(x@),
            PathAttribute::ASPATH(x) => PathAttributeView::ASPATH(x@),
            PathAttribute::NEXTHOP => PathAttributeView::NEXTHOP,
            PathAttribute::MULTIEXITDISC => PathAttributeView::MULTIEXITDISC,
            PathAttribute::LOCALPREF => PathAttributeView::LOCALPREF,
            PathAttribute::ATOMICAGGREGATE => PathAttributeView::ATOMICAGGREGATE,
            PathAttribute::AGGREGATOR => PathAttributeView::AGGREGATOR,
        }
    }
}

impl Origin {
    /// What the byte at `at` stands for: 0 is IGP, 1 is EGP, 2 is
    /// INCOMPLETE, and any other value is an error that carries it.
    pub open spec fn decode(s: Seq<u8>, at: int) -> Decoding<Origin> {
        if !available(s, at, 1) {
            truncated(s, at)
        } else if s[at] == 0 {
            Ok((Origin::IGP, 1nat))
        } else if s[at] == 1 {
            Ok((Origin::EGP, 1nat))
        } else if s[at] == 2 {
            Ok((Origin::INCOMPLETE, 1nat))
        } else {
            failed(DecodeError::InvalidOrigin(s[at]), 1)
        }
    }

    /// Reads the value of an ORIGIN attribute.
    pub fn parse(stream: &mut ByteStream) -> (r: Result<Origin, DecodeError>)
        ensures
            decoded(
                r,
                Origin::decode(old(stream).bytes(), old(stream).position() as int),
                old(stream),
                final(stream),
            ),
    {
        match stream.read_u8()? {
            0 => Ok(Origin::IGP),
            1 => Ok(Origin::EGP),
            2 => Ok(Origin::INCOMPLETE),
            x => Err(DecodeError::InvalidOrigin(x)),
        }
    }
}

impl SegmentType {
    /// What the byte at `at` stands for: 1 is AS_SET, 2 is AS_SEQUENCE, and
    /// any other value is an error that carries it.
    pub open spec fn decode(s: Seq<u8>, at: int) -> Decoding<SegmentType> {
        if !available(s, at, 1) {
            truncated(s, at)
        } else if s[at] == 1 {
            Ok((SegmentType::AS_SET, 1nat))
        } else if s[at] == 2 {
            Ok((SegmentType::AS_SEQUENCE, 1nat))
        } else {
            failed(DecodeError::InvalidSegmentType(s[at]), 1)
        }
    }

    /// Reads the type of a path segment.
    pub fn parse(stream: &mut ByteStream) -> (r: Result<SegmentType, DecodeError>)
        ensures
            decoded(
                r,
                SegmentType::decode(old(stream).bytes(), old(stream).position() as int),
                old(stream),
                final(stream),
            ),
    {
        match stream.read_u8()? {
            1 => Ok(SegmentType::AS_SET),
            2 => Ok(SegmentType::AS_SEQUENCE),
            x => Err(DecodeError::InvalidSegmentType(x)),
        }
    }
}

/// The `count` big-endian AS numbers of 32 bits that start at `at`.
pub open spec fn as_numbers(s: Seq<u8>, at: int, count: nat) -> Seq<u32> {
    Seq::new(count, |i: int| be_u32(s, at + 4 * i))
}

impl AsPath {
    /// What the bytes at `at` stand for: the segment type, the number of AS
    /// numbers in one byte, then that many AS numbers of four bytes each.
    pub open spec fn decode(s: Seq<u8>, at: int) -> Decoding<AsPathView> {
        match SegmentType::decode(s, at) {
            Err(e) => Err(e),
            Ok((segment_type, _)) => if !available(s, at + 1, 1) {
                truncated(s, at)
            } else if !available(s, at + 2, 4 * s[at + 1]) {
                truncated(s, at)
            } else {
                Ok(
                    (
                        AsPathView {
                            segment_type,
                            as_path: as_numbers(s, at + 2, s[at + 1] as nat),
                        },
                        (2 + 4 * s[at + 1]) as nat,
                    ),
                )
            },
        }
    }

    /// Reads the value of an AS_PATH attribute.
    pub fn parse(stream: &mut ByteStream) -> (r: Result<AsPath, DecodeError>)
        ensures
            decoded(
                r,
                AsPath::decode(old(stream).bytes(), old(stream).position() as int),
                old(stream),
                final(stream),
            ),
    {
        let segment_type = SegmentType::parse(stream)?;
        let count = stream.read_u8()?;
        let ghost s = stream.bytes();
        let ghost base = stream.position() as int;
        let mut as_path: Vec<u32> = Vec::new();
        let mut i: u8 = 0;
        while i < count
            invariant
                i <= count,
                s == old(stream).bytes(),
                base == old(stream).position() + 2,
                SegmentType::decode(s, base - 2) == taken(segment_type, 1nat),
                available(s, base - 1, 1),
                count == s[base - 1],
                stream.bytes() == s,
                stream.position() == base + 4 * i,
                stream.position() <= s.len(),
                as_path@ == as_numbers(s, base, i as nat),
            decreases count - i,
        {
            let buffer = stream.read_bytes(4)?;
            let mut rest: &[u8] = buffer.as_slice();
            let asn = read_be_u32(&mut rest);
            as_path.push(asn);
            i = i + 1;
            assert(as_path@ =~= as_numbers(s, base, i as nat));
        }
        Ok(AsPath { segment_type, as_path })
    }
}

impl PathAttribute {
    /// Whether the flags say that the attribute's length takes two bytes:
    /// the extended-length bit, the fourth from the top. Of the flags only
    /// this bit is looked at; the four low bits are unused and are ignored.
    pub open spec fn has_extended_length(flags: u8) -> bool {
        flags & 0x10 != 0
    }

    /// The attribute that stands for a type code without a decoded value.
    pub open spec fn of_code(code: u8) -> Option<PathAttributeView> {
        if code == 3 {
            Some(PathAttributeView::NEXTHOP)
        } else if code == 4 {
            Some(PathAttributeView::MULTIEXITDISC)
        } else if code == 5 {
            Some(PathAttributeView::LOCALPREF)
        } else if code == 6 {
            Some(PathAttributeView::ATOMICAGGREGATE)
        } else if code == 7 {
            Some(PathAttributeView::AGGREGATOR)
        } else {
            None
        }
    }

    /// What the bytes at `at` stand for: the flags and the type code; the
    /// attribute's length in one byte, or in two where the flags say so;
    /// then, for ORIGIN and AS_PATH, the value. An ORIGIN has length 1. The
    /// attributes with codes 3 to 7 are told apart and their values left
    /// unread.
    pub open spec fn decode(s: Seq<u8>, at: int) -> Decoding<PathAttributeView> {
        if !available(s, at, 2) {
            truncated(s, at)
        } else {
            let flags = s[at];
            let code = s[at + 1];
            let width: int = if PathAttribute::has_extended_length(flags) {
                2
            } else {
                1
            };
            if !available(s, at + 2, width) {
                truncated(s, at)
            } else {
                let length: u16 = if PathAttribute::has_extended_length(flags) {
                    be_u16(s, at + 2)
                } else {
                    s[at + 2] as u16
                };
                let head = (2 + width) as nat;
                if code == 1 {
                    if length != 1 {
                        failed(DecodeError::InvalidAttributeLength(length), head as int)
                    } else {
                        match Origin::decode(s, at + head) {
                            Ok((v, n)) => Ok((PathAttributeView::ORIGIN(v), head + n)),
                            Err((e, k)) => Err((e, head + k)),
                        }
                    }
                } else if code == 2 {
                    match AsPath::decode(s, at + head) {
                        Ok((v, n)) => Ok((PathAttributeView::ASPATH(v), head + n)),
                        Err((e, k)) => Err((e, head + k)),
                    }
                } else {
                    match PathAttribute::of_code(code) {
                        Some(v) => Ok((v, head)),
                        None => failed(DecodeError::UnknownAttributeType(code), head as int),
                    }
                }
            }
        }
    }

    /// Reads one path attribute. The second argument, the length of the
    /// whole attribute block, plays no part.
    pub fn parse(stream: &mut ByteStream, _all_atributes_length: u16) -> (r: Result<
        PathAttribute,
        DecodeError,
    >)
        ensures
            decoded(
                r,
                PathAttribute::decode(old(stream).bytes(), old(stream).position() as int),
                old(stream),
                final(stream),
            ),
    {
        let flags = stream.read_u8()?;
        let code = stream.read_u8()?;
        let length: u16 = if flags & 0x10 != 0 {
            stream.read_u16()?
        } else {
            stream.read_u8()? as u16
        };
        match code {
            1 => {
                if length != 1 {
                    Err(DecodeError::InvalidAttributeLength(length))
                } else {
                    Ok(PathAttribute::ORIGIN(Origin::parse(stream)?))
                }
            },
            2 => Ok(PathAttribute::ASPATH(AsPath::parse(stream)?)),
            3 => Ok(PathAttribute::NEXTHOP),
            4 => Ok(PathAttribute::MULTIEXITDISC),
            5 => Ok(PathAttribute::LOCALPREF),
            6 => Ok(PathAttribute::ATOMICAGGREGATE),
            7 => Ok(PathAttribute::AGGREGATOR),
            x => Err(DecodeError::UnknownAttributeType(x)),
        }
    }
}

} // verus!
