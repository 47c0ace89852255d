use vstd::prelude::*;

verus! {

/// Why a decoder gave up. Every variant is fatal: the format has no marker to
/// resynchronise on, so nothing is recovered or retried.
#[derive(Clone, Copy, Debug, PartialEq, Eq, Structural)]
pub enum DecodeError {
    /// The stream ended inside a header or a payload field.
    Truncated,
    /// The header names a record type that the format does not define.
    UnknownRecordType(u16),
    /// The header names a subtype that the record type does not define.
    UnknownSubtype(u16),
    /// An address family code other than 1 (IPv4) and 2 (IPv6).
    InvalidAfi(u16),
    /// The header's length is smaller than the fixed fields that precede a
    /// payload whose length is derived from it.
    InvalidLength(u32),
    /// A next-hop length other than 4 and 16.
    InvalidNextHopLength(u8),
    /// An ORIGIN value other than 0, 1 and 2.
    InvalidOrigin(u8),
    /// A path segment type other than 1 (AS_SET) and 2 (AS_SEQUENCE).
    InvalidSegmentType(u8),
    /// An ORIGIN attribute whose length is not 1.
    InvalidAttributeLength(u16),
    /// An attribute type code outside 1 to 7.
    UnknownAttributeType(u8),
}

} // verus!
