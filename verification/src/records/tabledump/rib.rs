use crate::AFI;
use crate::error::DecodeError;
use crate::stream::ByteStream;
use crate::stream::decoded;
use crate::wire::available;
use crate::wire::be_u16;
use crate::wire::be_u32;
use crate::wire::Decoding;
use crate::wire::holds;
use crate::wire::lemma_be_u16_holds;
use crate::wire::lemma_be_u32_holds;
use crate::wire::lemma_holds_split;
use crate::wire::lemma_int_bytes_len;
use crate::wire::lemma_u8_holds;
use crate::wire::prefix_bytes;
use crate::wire::failed;
use crate::wire::taken;
use crate::wire::truncated;
use crate::wire::u16_bytes;
use crate::wire::u32_bytes;
use vstd::prelude::*;

verus! {

/// Whether the NLRI of a generic RIB record is a labeled VPN address, which
/// alone stands behind a length byte: IPv4 with the subsequent family 128.
pub open spec fn nlri_is_labeled(afi: AFI, safi: u8) -> bool {
    afi == AFI::IPV4 && safi == 128
}

/// Where the NLRI of the generic RIB record at `at` starts: behind the 7
/// bytes of fixed fields, and behind one length byte more where it is
/// labeled.
pub open spec fn nlri_start(at: int, afi: AFI, safi: u8) -> int {
    if nlri_is_labeled(afi, safi) {
        at + 8
    } else {
        at + 7
    }
}

/// The length in bytes of the NLRI of the generic RIB record at `at`: for a
/// labeled address what holds the bits that the length byte says, else the
/// width of the family.
pub open spec fn nlri_len(s: Seq<u8>, at: int, afi: AFI, safi: u8) -> int {
    if nlri_is_labeled(afi, safi) {
        prefix_bytes(s[at + 7])
    } else {
        afi.width()
    }
}

/// The bits of `len` whole bytes, as far as a byte can say them.
pub open spec fn nlri_bits(len: nat) -> u8 {
    if len >= 32 {
        255
    } else {
        (8 * len) as u8
    }
}

/// What stands between the fixed fields and the NLRI: the length byte of a
/// labeled address, else nothing.
pub open spec fn nlri_head(afi: AFI, safi: u8, len: nat) -> Seq<u8> {
    if nlri_is_labeled(afi, safi) {
        seq![nlri_bits(len)]
    } else {
        Seq::empty()
    }
}

/// A route of the routing table.
#[derive(Debug, PartialEq, Eq)]
pub struct RIBEntry {
    /// The index of the peer in the peer index table. It is not checked
    /// against the table.
    pub peer_index: u16,
    /// The time at which the route was received.
    pub originated_time: u32,
    /// The path attributes of the route, undecoded.
    pub attributes: Vec<u8>,
}

/// What a [`RIBEntry`] holds, as mathematical values.
pub ghost struct RibEntryView {
    pub peer_index: u16,
    pub originated_time: u32,
    pub attributes: Seq<u8>,
}

impl View for RIBEntry {
    type V = RibEntryView;

    open spec fn view(&self) -> RibEntryView {
        RibEntryView {
            peer_index: self.peer_index,
            originated_time: self.originated_time,
            attributes: self.attributes@,
        }
    }
}

impl RibEntryView {
    /// Whether the value can stand on the wire: the attributes' length fits
    /// in 16 bits.
    pub open spec fn wf(self) -> bool {
        self.attributes.len() <= 0xFFFF
    }

    /// The bytes that stand for the value.
    pub open spec fn wire(self) -> Seq<u8> {
        u16_bytes(self.peer_index) + u32_bytes(self.originated_time) + u16_bytes(
            self.attributes.len() as u16,
        ) + self.attributes
    }

    /// Decoding the bytes of a value gives the value, and takes those bytes.
    pub proof fn lemma_decode_wire(self, s: Seq<u8>, at: int)
        requires
            self.wf(),
            holds(s, at, self.wire()),
        ensures
            RIBEntry::decode(s, at) == taken(self, self.wire().len()),
    {
        lemma_int_bytes_len();
        let part1 = u16_bytes(self.peer_index);
        let part2 = u32_bytes(self.originated_time);
        let part3 = u16_bytes(self.attributes.len() as u16);
        lemma_holds_split(s, at, part1 + part2 + part3, self.attributes);
        lemma_holds_split(s, at, part1 + part2, part3);
        lemma_holds_split(s, at, part1, part2);
        lemma_be_u16_holds(s, at, self.peer_index);
        lemma_be_u32_holds(s, at + 2, self.originated_time);
        lemma_be_u16_holds(s, at + 6, self.attributes.len() as u16);
    }
}

impl RIBEntry {
    /// What the bytes at `at` stand for: the peer's index, the time, and the
    /// attributes behind their length.
    pub open spec fn decode(s: Seq<u8>, at: int) -> Decoding<RibEntryView> {
        if !available(s, at, 8) {
            truncated(s, at)
        } else if !available(s, at + 8, be_u16(s, at + 6) as int) {
            truncated(s, at)
        } else {
            Ok(
                (
                    RibEntryView {
                        peer_index: be_u16(s, at),
                        originated_time: be_u32(s, at + 2),
                        attributes: s.subrange(at + 8, at + 8 + be_u16(s, at + 6)),
                    },
                    (8 + be_u16(s, at + 6)) as nat,
                ),
            )
        }
    }

    /// What is decoded can stand on the wire.
    pub proof fn lemma_decode_wf(s: Seq<u8>, at: int)
        ensures
            RIBEntry::decode(s, at) matches Ok((v, n)) ==> v.wf(),
    {
    }

    /// Reads one route.
    pub fn parse(stream: &mut ByteStream) -> (r: Result<RIBEntry, DecodeError>)
        ensures
            decoded(
                r,
                RIBEntry::decode(old(stream).bytes(), old(stream).position() as int),
                old(stream),
                final(stream),
            ),
    {
        let peer_index = stream.read_u16()?;
        let originated_time = stream.read_u32()?;
        let attribute_length = stream.read_u16()?;
        let attributes = stream.read_bytes(attribute_length as usize)?;
        Ok(RIBEntry { peer_index, originated_time, attributes })
    }

    /// What each of the routes holds.
    pub open spec fn views(entries: Seq<RIBEntry>) -> Seq<RibEntryView> {
        entries.map_values(|e: RIBEntry| e@)
    }

    /// What `count` routes, one after the other from `at` on, stand for,
    /// with the bytes that they take together. The first route that fails
    /// gives the error.
    pub open spec fn decode_many(s: Seq<u8>, at: int, count: nat) -> Decoding<Seq<RibEntryView>>
        decreases count,
    {
        if count == 0 {
            Ok((Seq::empty(), 0nat))
        } else {
            match RIBEntry::decode_many(s, at, (count - 1) as nat) {
                Err(e) => Err(e),
                Ok((entries, n)) => match RIBEntry::decode(s, at + n) {
                    Err((e, k)) => Err((e, n + k)),
                    Ok((entry, m)) => Ok((entries.push(entry), n + m)),
                },
            }
        }
    }

    /// An error among the first routes is the error of every longer list.
    pub proof fn lemma_decode_many_err(s: Seq<u8>, at: int, i: nat, count: nat)
        requires
            i <= count,
            RIBEntry::decode_many(s, at, i) is Err,
        ensures
            RIBEntry::decode_many(s, at, count) == RIBEntry::decode_many(s, at, i),
        decreases count,
    {
        if i < count {
            RIBEntry::lemma_decode_many_err(s, at, i, (count - 1) as nat);
        }
    }

    /// Routes that are decoded are as many as asked for, and each can stand
    /// on the wire.
    pub proof fn lemma_decode_many_wf(s: Seq<u8>, at: int, count: nat)
        ensures
            RIBEntry::decode_many(s, at, count) matches Ok((v, n)) ==> v.len() == count
                && RIBEntry::all_wf(v),
        decreases count,
    {
        if count > 0 {
            RIBEntry::lemma_decode_many_wf(s, at, (count - 1) as nat);
        }
    }

    /// Whether each of the routes can stand on the wire.
    pub open spec fn all_wf(entries: Seq<RibEntryView>) -> bool {
        forall|i: int| 0 <= i < entries.len() ==> (#[trigger] entries[i]).wf()
    }

    /// The bytes that stand for the routes, one after the other.
    pub open spec fn wire_many(entries: Seq<RibEntryView>) -> Seq<u8>
        decreases entries.len(),
    {
        if entries.len() == 0 {
            Seq::empty()
        } else {
            RIBEntry::wire_many(entries.drop_last()) + entries.last().wire()
        }
    }

    /// Decoding the bytes of a list of routes gives the list, and takes
    /// those bytes.
    pub proof fn lemma_decode_many_wire(entries: Seq<RibEntryView>, s: Seq<u8>, at: int)
        requires
            RIBEntry::all_wf(entries),
            holds(s, at, RIBEntry::wire_many(entries)),
        ensures
            RIBEntry::decode_many(s, at, entries.len()) == taken(
                entries,
                RIBEntry::wire_many(entries).len(),
            ),
        decreases entries.len(),
    {
        if entries.len() == 0 {
            assert(entries =~= Seq::empty());
        } else {
            let front = entries.drop_last();
            let last = entries.last();
            assert(RIBEntry::all_wf(front)) by {
                assert forall|i: int| 0 <= i < front.len() implies (#[trigger] front[i]).wf() by {
                    assert(entries[i].wf());
                }
            }
            lemma_holds_split(s, at, RIBEntry::wire_many(front), last.wire());
            RIBEntry::lemma_decode_many_wire(front, s, at);
            last.lemma_decode_wire(s, at + RIBEntry::wire_many(front).len());
            assert(front.push(last) =~= entries);
        }
    }

    /// Reads `count` routes.
    pub fn parse_many(stream: &mut ByteStream, count: u16) -> (r: Result<
        Vec<RIBEntry>,
        DecodeError,
    >)
        ensures
            final(stream).follows(old(stream)),
            match RIBEntry::decode_many(
                old(stream).bytes(),
                old(stream).position() as int,
                count as nat,
            ) {
                Ok((v, n)) => {
                    &&& r matches Ok(entries)
                    &&& RIBEntry::views(entries@) == v
                    &&& final(stream).position() == old(stream).position() + n
                },
                Err((e, n)) => {
                    &&& r matches Err(x)
                    &&& x == e
                    &&& final(stream).position() == old(stream).position() + n
                },
            },
    {
        let ghost s = stream.bytes();
        let ghost at = stream.position() as int;
        let mut entries: Vec<RIBEntry> = Vec::with_capacity(count as usize);
        let mut i: u16 = 0;
        assert(RIBEntry::views(entries@) =~= Seq::<RibEntryView>::empty());
        while i < count
            invariant
                i <= count,
                s == old(stream).bytes(),
                at == old(stream).position(),
                stream.bytes() == s,
                at <= stream.position(),
                RIBEntry::decode_many(s, at, i as nat) == taken(
                    RIBEntry::views(entries@),
                    (stream.position() - at) as nat,
                ),
            decreases count - i,
        {
            let ghost before = entries@;
            match RIBEntry::parse(stream) {
                Ok(entry) => {
                    entries.push(entry);
                    assert(RIBEntry::views(entries@) =~= RIBEntry::views(before).push(entry@));
                },
                Err(e) => {
                    proof {
                        RIBEntry::lemma_decode_many_err(s, at, (i + 1) as nat, count as nat);
                    }
                    return Err(e);
                },
            }
            i = i + 1;
        }
        Ok(entries)
    }
}

/// The routes to one prefix of an address family that the subtype names.
#[derive(Debug, PartialEq, Eq)]
#[allow(non_camel_case_types)]
pub struct RIB_AFI {
    /// The number of the prefix in the dump; it wraps to zero.
    pub sequence_number: u32,
    /// The length of the prefix in bits.
    pub prefix_length: u8,
    /// The prefix, in as many bytes as hold its bits.
    pub prefix: Vec<u8>,
    /// The routes to the prefix.
    pub entries: Vec<RIBEntry>,
}

/// What a [`RIB_AFI`] holds, as mathematical values.
pub ghost struct RibAfiView {
    pub sequence_number: u32,
    pub prefix_length: u8,
    pub prefix: Seq<u8>,
    pub entries: Seq<RibEntryView>,
}

impl View for RIB_AFI {
    type V = RibAfiView;

    open spec fn view(&self) -> RibAfiView {
        RibAfiView {
            sequence_number: self.sequence_number,
            prefix_length: self.prefix_length,
            prefix: self.prefix@,
            entries: RIBEntry::views(self.entries@),
        }
    }
}

impl RibAfiView {
    /// Whether the value can stand on the wire: the prefix has the bytes
    /// that hold its bits, the routes are no more than a 16-bit count can
    /// say, and each can stand on the wire.
    pub open spec fn wf(self) -> bool {
        &&& self.prefix.len() == prefix_bytes(self.prefix_length)
        &&& self.entries.len() <= 0xFFFF
        &&& RIBEntry::all_wf(self.entries)
    }

    /// The bytes that stand for the value.
    pub open spec fn wire(self) -> Seq<u8> {
        u32_bytes(self.sequence_number) + seq![self.prefix_length] + self.prefix + u16_bytes(
            self.entries.len() as u16,
        ) + RIBEntry::wire_many(self.entries)
    }

    /// Decoding the bytes of a value gives the value, and takes those bytes.
    pub proof fn lemma_decode_wire(self, s: Seq<u8>, at: int)
        requires
            self.wf(),
            holds(s, at, self.wire()),
        ensures
            RIB_AFI::decode(s, at) == taken(self, self.wire().len()),
    {
        lemma_int_bytes_len();
        let part1 = u32_bytes(self.sequence_number);
        let part2 = seq![self.prefix_length];
        let part4 = u16_bytes(self.entries.len() as u16);
        let part5 = RIBEntry::wire_many(self.entries);
        lemma_holds_split(s, at, part1 + part2 + self.prefix + part4, part5);
        lemma_holds_split(s, at, part1 + part2 + self.prefix, part4);
        lemma_holds_split(s, at, part1 + part2, self.prefix);
        lemma_holds_split(s, at, part1, part2);
        lemma_be_u32_holds(s, at, self.sequence_number);
        lemma_u8_holds(s, at + 4, self.prefix_length);
        lemma_be_u16_holds(s, at + 5 + self.prefix.len(), self.entries.len() as u16);
        RIBEntry::lemma_decode_many_wire(self.entries, s, at + 7 + self.prefix.len());
    }
}

impl RIB_AFI {
    /// What the bytes at `at` stand for: the sequence number; the prefix
    /// behind its length in bits, in the bytes that hold them; the number of
    /// routes, then the routes.
    pub open spec fn decode(s: Seq<u8>, at: int) -> Decoding<RibAfiView> {
        if !available(s, at, 5) {
            truncated(s, at)
        } else if !available(s, at + 5, prefix_bytes(s[at + 4]) + 2) {
            truncated(s, at)
        } else {
            let list = at + 7 + prefix_bytes(s[at + 4]);
            match RIBEntry::decode_many(s, list, be_u16(s, list - 2) as nat) {
                Err((e, k)) => failed(e, list - at + k),
                Ok((entries, n)) => Ok(
                    (
                        RibAfiView {
                            sequence_number: be_u32(s, at),
                            prefix_length: s[at + 4],
                            prefix: s.subrange(at + 5, list - 2),
                            entries,
                        },
                        (list - at + n) as nat,
                    ),
                ),
            }
        }
    }

    /// What is decoded can stand on the wire.
    pub proof fn lemma_decode_wf(s: Seq<u8>, at: int)
        ensures
            RIB_AFI::decode(s, at) matches Ok((v, n)) ==> v.wf(),
    {
        if RIB_AFI::decode(s, at) is Ok {
            let list = at + 7 + prefix_bytes(s[at + 4]);
            RIBEntry::lemma_decode_many_wf(s, list, be_u16(s, list - 2) as nat);
        }
    }

    /// Reads the routes to one prefix.
    pub fn parse(stream: &mut ByteStream) -> (r: Result<RIB_AFI, DecodeError>)
        ensures
            decoded(
                r,
                RIB_AFI::decode(old(stream).bytes(), old(stream).position() as int),
                old(stream),
                final(stream),
            ),
            r matches Ok(v) ==> v.prefix@.len() == prefix_bytes(v.prefix_length),
    {
        let sequence_number = stream.read_u32()?;
        let prefix_length = stream.read_u8()?;
        let prefix = stream.read_bytes((prefix_length as usize + 7) / 8)?;
        let entry_count = stream.read_u16()?;
        let entries = RIBEntry::parse_many(stream, entry_count)?;
        Ok(RIB_AFI { sequence_number, prefix_length, prefix, entries })
    }
}

/// The routes to one prefix of an address family that the record itself
/// names.
#[derive(Debug, PartialEq, Eq)]
#[allow(non_camel_case_types)]
pub struct RIB_GENERIC {
    /// The number of the prefix in the dump; it wraps to zero.
    pub sequence_number: u32,
    /// The address family of the prefix.
    pub afi: AFI,
    /// The subsequent address family of the prefix.
    pub safi: u8,
    /// The network layer reachability information: the prefix.
    pub nlri: Vec<u8>,
    /// The routes to the prefix.
    pub entries: Vec<RIBEntry>,
}

/// What a [`RIB_GENERIC`] holds, as mathematical values.
pub ghost struct RibGenericView {
    pub sequence_number: u32,
    pub afi: AFI,
    pub safi: u8,
    pub nlri: Seq<u8>,
    pub entries: Seq<RibEntryView>,
}

impl View for RIB_GENERIC {
    type V = RibGenericView;

    open spec fn view(&self) -> RibGenericView {
        RibGenericView {
            sequence_number: self.sequence_number,
            afi: self.afi,
            safi: self.safi,
            nlri: self.nlri@,
            entries: RIBEntry::views(self.entries@),
        }
    }
}

impl RibGenericView {
    /// Whether the value can stand on the wire: the NLRI has the length
    /// that its families ask for, the routes are no more than a 16-bit
    /// count can say, and each can stand on the wire.
    pub open spec fn wf(self) -> bool {
        &&& if nlri_is_labeled(self.afi, self.safi) {
            self.nlri.len() <= 32
        } else {
            self.nlri.len() == self.afi.width()
        }
        &&& self.entries.len() <= 0xFFFF
        &&& RIBEntry::all_wf(self.entries)
    }

    /// The bytes that stand for the value. Where the NLRI is labeled, the
    /// length byte before it says the bits of its whole bytes.
    pub open spec fn wire(self) -> Seq<u8> {
        u32_bytes(self.sequence_number) + u16_bytes(self.afi.code()) + seq![self.safi]
            + nlri_head(self.afi, self.safi, self.nlri.len()) + self.nlri + u16_bytes(
            self.entries.len() as u16,
        ) + RIBEntry::wire_many(self.entries)
    }

    /// Decoding the bytes of a value gives the value, and takes those bytes.
    pub proof fn lemma_decode_wire(self, s: Seq<u8>, at: int)
        requires
            self.wf(),
            holds(s, at, self.wire()),
        ensures
            RIB_GENERIC::decode(s, at) == taken(self, self.wire().len()),
    {
        lemma_int_bytes_len();
        let part1 = u32_bytes(self.sequence_number);
        let part2 = u16_bytes(self.afi.code());
        let part3 = seq![self.safi];
        let part4 = nlri_head(self.afi, self.safi, self.nlri.len());
        let part6 = u16_bytes(self.entries.len() as u16);
        let part7 = RIBEntry::wire_many(self.entries);
        lemma_holds_split(s, at, part1 + part2 + part3 + part4 + self.nlri + part6, part7);
        lemma_holds_split(s, at, part1 + part2 + part3 + part4 + self.nlri, part6);
        lemma_holds_split(s, at, part1 + part2 + part3 + part4, self.nlri);
        lemma_holds_split(s, at, part1 + part2 + part3, part4);
        lemma_holds_split(s, at, part1 + part2, part3);
        lemma_holds_split(s, at, part1, part2);
        lemma_be_u32_holds(s, at, self.sequence_number);
        lemma_be_u16_holds(s, at + 4, self.afi.code());
        lemma_u8_holds(s, at + 6, self.safi);
        if nlri_is_labeled(self.afi, self.safi) {
            lemma_u8_holds(s, at + 7, nlri_bits(self.nlri.len()));
        }
        let start = nlri_start(at, self.afi, self.safi);
        lemma_be_u16_holds(s, start + self.nlri.len(), self.entries.len() as u16);
        RIBEntry::lemma_decode_many_wire(self.entries, s, start + self.nlri.len() + 2);
    }
}

impl RIB_GENERIC {
    /// What the bytes at `at` stand for: the sequence number, the address
    /// family code and the subsequent address family; the NLRI, whose
    /// length no field says outright (see [`nlri_len`]); the number of
    /// routes, then the routes.
    pub open spec fn decode(s: Seq<u8>, at: int) -> Decoding<RibGenericView> {
        if !available(s, at, 6) {
            truncated(s, at)
        } else {
            match AFI::of_code(be_u16(s, at + 4)) {
                None => failed(DecodeError::InvalidAfi(be_u16(s, at + 4)), 6),
                Some(afi) => if !available(s, at + 6, 1) {
                    truncated(s, at)
                } else if !available(s, at + 7, nlri_start(at, afi, s[at + 6]) - (at + 7)) {
                    truncated(s, at)
                } else {
                    let start = nlri_start(at, afi, s[at + 6]);
                    let list = start + nlri_len(s, at, afi, s[at + 6]) + 2;
                    if !available(s, start, list - start) {
                        truncated(s, at)
                    } else {
                        match RIBEntry::decode_many(s, list, be_u16(s, list - 2) as nat) {
                            Err((e, k)) => failed(e, list - at + k),
                            Ok((entries, n)) => Ok(
                                (
                                    RibGenericView {
                                        sequence_number: be_u32(s, at),
                                        afi,
                                        safi: s[at + 6],
                                        nlri: s.subrange(start, list - 2),
                                        entries,
                                    },
                                    (list - at + n) as nat,
                                ),
                            ),
                        }
                    }
                },
            }
        }
    }

    /// What is decoded can stand on the wire.
    pub proof fn lemma_decode_wf(s: Seq<u8>, at: int)
        ensures
            RIB_GENERIC::decode(s, at) matches Ok((v, n)) ==> v.wf(),
    {
        if RIB_GENERIC::decode(s, at) is Ok {
            let afi = AFI::of_code(be_u16(s, at + 4))->Some_0;
            let start = nlri_start(at, afi, s[at + 6]);
            let list = start + nlri_len(s, at, afi, s[at + 6]) + 2;
            RIBEntry::lemma_decode_many_wf(s, list, be_u16(s, list - 2) as nat);
        }
    }

    /// Reads the routes to one prefix of any family. For IPv4 with the
    /// subsequent family 128, one length byte stands before the NLRI; for
    /// IPv4 otherwise the NLRI has 4 bytes, and for IPv6 it has 16.
    pub fn parse(stream: &mut ByteStream) -> (r: Result<RIB_GENERIC, DecodeError>)
        ensures
            decoded(
                r,
                RIB_GENERIC::decode(old(stream).bytes(), old(stream).position() as int),
                old(stream),
                final(stream),
            ),
            r matches Ok(v) ==> {
                let s = old(stream).bytes();
                let at = old(stream).position() as int;
                &&& v.afi == AFI::IPV6 ==> v.nlri@ == s.subrange(at + 7, at + 7 + 16)
                &&& v.afi == AFI::IPV4 && v.safi != 128 ==> v.nlri@ == s.subrange(
                    at + 7,
                    at + 7 + 4,
                )
                &&& v.afi == AFI::IPV4 && v.safi == 128 ==> v.nlri@ == s.subrange(
                    at + 8,
                    at + 8 + prefix_bytes(s[at + 7]),
                )
            },
    {
        let sequence_number = stream.read_u32()?;
        let code = stream.read_u16()?;
        let afi = AFI::from(code)?;
        let safi = stream.read_u8()?;
        let length: usize = match afi {
            AFI::IPV4 => {
                if safi == 128 {
                    (stream.read_u8()? as usize + 7) / 8
                } else {
                    4
                }
            },
            AFI::IPV6 => 16,
        };
        let nlri = stream.read_bytes(length)?;
        let entry_count = stream.read_u16()?;
        let entries = RIBEntry::parse_many(stream, entry_count)?;
        Ok(RIB_GENERIC { sequence_number, afi, safi, nlri, entries })
    }
}

/// A route of the routing table, one of several that a peer may have for the prefix.
#[derive(Debug, PartialEq, Eq)]
pub struct RIBEntryAddPath {
    /// The index of the peer in the peer index table. It is not checked
    /// against the table.
    pub peer_index: u16,
    /// The time at which the route was received.
    pub originated_time: u32,
    /// What tells the path apart from others for the same prefix.
    pub path_identifier: u32,
    /// The path attributes of the route, undecoded.
    pub attributes: Vec<u8>,
}

/// What a [`RIBEntryAddPath`] holds, as mathematical values.
pub ghost struct RibEntryAddPathView {
    pub peer_index: u16,
    pub originated_time: u32,
    pub path_identifier: u32,
    pub attributes: Seq<u8>,
}

impl View for RIBEntryAddPath {
    type V = RibEntryAddPathView;

    open spec fn view(&self) -> RibEntryAddPathView {
        RibEntryAddPathView {
            peer_index: self.peer_index,
            originated_time: self.originated_time,
            path_identifier: self.path_identifier,
            attributes: self.attributes@,
        }
    }
}

impl RibEntryAddPathView {
    /// Whether the value can stand on the wire: the attributes' length fits
    /// in 16 bits.
    pub open spec fn wf(self) -> bool {
        self.attributes.len() <= 0xFFFF
    }

    /// The bytes that stand for the value.
    pub open spec fn wire(self) -> Seq<u8> {
        u16_bytes(self.peer_index) + u32_bytes(self.originated_time) + u32_bytes(
            self.path_identifier,
        ) + u16_bytes(self.attributes.len() as u16) + self.attributes
    }

    /// Decoding the bytes of a value gives the value, and takes those bytes.
    pub proof fn lemma_decode_wire(self, s: Seq<u8>, at: int)
        requires
            self.wf(),
            holds(s, at, self.wire()),
        ensures
            RIBEntryAddPath::decode(s, at) == taken(self, self.wire().len()),
    {
        lemma_int_bytes_len();
        let part1 = u16_bytes(self.peer_index);
        let part2 = u32_bytes(self.originated_time);
        let part3 = u32_bytes(self.path_identifier);
        let part4 = u16_bytes(self.attributes.len() as u16);
        lemma_holds_split(s, at, part1 + part2 + part3 + part4, self.attributes);
        lemma_holds_split(s, at, part1 + part2 + part3, part4);
        lemma_holds_split(s, at, part1 + part2, part3);
        lemma_holds_split(s, at, part1, part2);
        lemma_be_u16_holds(s, at, self.peer_index);
        lemma_be_u32_holds(s, at + 2, self.originated_time);
        lemma_be_u32_holds(s, at + 6, self.path_identifier);
        lemma_be_u16_holds(s, at + 10, self.attributes.len() as u16);
    }
}

impl RIBEntryAddPath {
    /// What the bytes at `at` stand for: the peer's index, the time, the path
    /// identifier, and the attributes behind their length.
    pub open spec fn decode(s: Seq<u8>, at: int) -> Decoding<RibEntryAddPathView> {
        if !available(s, at, 12) {
            truncated(s, at)
        } else if !available(s, at + 12, be_u16(s, at + 10) as int) {
            truncated(s, at)
        } else {
            Ok(
                (
                    RibEntryAddPathView {
                        peer_index: be_u16(s, at),
                        originated_time: be_u32(s, at + 2),
                        path_identifier: be_u32(s, at + 6),
                        attributes: s.subrange(at + 12, at + 12 + be_u16(s, at + 10)),
                    },
                    (12 + be_u16(s, at + 10)) as nat,
                ),
            )
        }
    }

    /// What is decoded can stand on the wire.
    pub proof fn lemma_decode_wf(s: Seq<u8>, at: int)
        ensures
            RIBEntryAddPath::decode(s, at) matches Ok((v, n)) ==> v.wf(),
    {
    }

    /// Reads one route.
    pub fn parse(stream: &mut ByteStream) -> (r: Result<RIBEntryAddPath, DecodeError>)
        ensures
            decoded(
                r,
                RIBEntryAddPath::decode(old(stream).bytes(), old(stream).position() as int),
                old(stream),
                final(stream),
            ),
    {
        let peer_index = stream.read_u16()?;
        let originated_time = stream.read_u32()?;
        let path_identifier = stream.read_u32()?;
        let attribute_length = stream.read_u16()?;
        let attributes = stream.read_bytes(attribute_length as usize)?;
        Ok(RIBEntryAddPath { peer_index, originated_time, path_identifier, attributes })
    }

    /// What each of the routes holds.
    pub open spec fn views(entries: Seq<RIBEntryAddPath>) -> Seq<RibEntryAddPathView> {
        entries.map_values(|e: RIBEntryAddPath| e@)
    }

    /// What `count` routes, one after the other from `at` on, stand for,
    /// with the bytes that they take together. The first route that fails
    /// gives the error.
    pub open spec fn decode_many(
        s: Seq<u8>,
        at: int,
        count: nat,
    ) -> Decoding<Seq<RibEntryAddPathView>>
        decreases count,
    {
        if count == 0 {
            Ok((Seq::empty(), 0nat))
        } else {
            match RIBEntryAddPath::decode_many(s, at, (count - 1) as nat) {
                Err(e) => Err(e),
                Ok((entries, n)) => match RIBEntryAddPath::decode(s, at + n) {
                    Err((e, k)) => Err((e, n + k)),
                    Ok((entry, m)) => Ok((entries.push(entry), n + m)),
                },
            }
        }
    }

    /// An error among the first routes is the error of every longer list.
    pub proof fn lemma_decode_many_err(s: Seq<u8>, at: int, i: nat, count: nat)
        requires
            i <= count,
            RIBEntryAddPath::decode_many(s, at, i) is Err,
        ensures
            RIBEntryAddPath::decode_many(s, at, count) == RIBEntryAddPath::decode_many(s, at, i),
        decreases count,
    {
        if i < count {
            RIBEntryAddPath::lemma_decode_many_err(s, at, i, (count - 1) as nat);
        }
    }

    /// Routes that are decoded are as many as asked for, and each can stand
    /// on the wire.
    pub proof fn lemma_decode_many_wf(s: Seq<u8>, at: int, count: nat)
        ensures
            RIBEntryAddPath::decode_many(s, at, count) matches Ok((v, n)) ==> v.len() == count
                && RIBEntryAddPath::all_wf(v),
        decreases count,
    {
        if count > 0 {
            RIBEntryAddPath::lemma_decode_many_wf(s, at, (count - 1) as nat);
        }
    }

    /// Whether each of the routes can stand on the wire.
    pub open spec fn all_wf(entries: Seq<RibEntryAddPathView>) -> bool {
        forall|i: int| 0 <= i < entries.len() ==> (#[trigger] entries[i]).wf()
    }

    /// The bytes that stand for the routes, one after the other.
    pub open spec fn wire_many(entries: Seq<RibEntryAddPathView>) -> Seq<u8>
        decreases entries.len(),
    {
        if entries.len() == 0 {
            Seq::empty()
        } else {
            RIBEntryAddPath::wire_many(entries.drop_last()) + entries.last().wire()
        }
    }

    /// Decoding the bytes of a list of routes gives the list, and takes
    /// those bytes.
    pub proof fn lemma_decode_many_wire(entries: Seq<RibEntryAddPathView>, s: Seq<u8>, at: int)
        requires
            RIBEntryAddPath::all_wf(entries),
            holds(s, at, RIBEntryAddPath::wire_many(entries)),
        ensures
            RIBEntryAddPath::decode_many(s, at, entries.len()) == taken(
                entries,
                RIBEntryAddPath::wire_many(entries).len(),
            ),
        decreases entries.len(),
    {
        if entries.len() == 0 {
            assert(entries =~= Seq::empty());
        } else {
            let front = entries.drop_last();
            let last = entries.last();
            assert(RIBEntryAddPath::all_wf(front)) by {
                assert forall|i: int| 0 <= i < front.len() implies (#[trigger] front[i]).wf() by {
                    assert(entries[i].wf());
                }
            }
            lemma_holds_split(s, at, RIBEntryAddPath::wire_many(front), last.wire());
            RIBEntryAddPath::lemma_decode_many_wire(front, s, at);
            last.lemma_decode_wire(s, at + RIBEntryAddPath::wire_many(front).len());
            assert(front.push(last) =~= entries);
        }
    }

    /// Reads `count` routes.
    pub fn parse_many(stream: &mut ByteStream, count: u16) -> (r: Result<
        Vec<RIBEntryAddPath>,
        DecodeError,
    >)
        ensures
            final(stream).follows(old(stream)),
            match RIBEntryAddPath::decode_many(
                old(stream).bytes(),
                old(stream).position() as int,
                count as nat,
            ) {
                Ok((v, n)) => {
                    &&& r matches Ok(entries)
                    &&& RIBEntryAddPath::views(entries@) == v
                    &&& final(stream).position() == old(stream).position() + n
                },
                Err((e, n)) => {
                    &&& r matches Err(x)
                    &&& x == e
                    &&& final(stream).position() == old(stream).position() + n
                },
            },
    {
        let ghost s = stream.bytes();
        let ghost at = stream.position() as int;
        let mut entries: Vec<RIBEntryAddPath> = Vec::with_capacity(count as usize);
        let mut i: u16 = 0;
        assert(RIBEntryAddPath::views(entries@) =~= Seq::<RibEntryAddPathView>::empty());
        while i < count
            invariant
                i <= count,
                s == old(stream).bytes(),
                at == old(stream).position(),
                stream.bytes() == s,
                at <= stream.position(),
                RIBEntryAddPath::decode_many(s, at, i as nat) == taken(
                    RIBEntryAddPath::views(entries@),
                    (stream.position() - at) as nat,
                ),
            decreases count - i,
        {
            let ghost before = entries@;
            match RIBEntryAddPath::parse(stream) {
                Ok(entry) => {
                    entries.push(entry);
                    assert(RIBEntryAddPath::views(entries@) =~= RIBEntryAddPath::views(
                        before,
                    ).push(entry@));
                },
                Err(e) => {
                    proof {
                        RIBEntryAddPath::lemma_decode_many_err(s, at, (i + 1) as nat, count as nat);
                    }
                    return Err(e);
                },
            }
            i = i + 1;
        }
        Ok(entries)
    }
}

/// The routes to one prefix of an address family that the subtype names. A peer
/// may have several routes among them.
#[derive(Debug, PartialEq, Eq)]
#[allow(non_camel_case_types)]
pub struct RIB_AFI_ADDPATH {
    /// The number of the prefix in the dump; it wraps to zero.
    pub sequence_number: u32,
    /// The length of the prefix in bits.
    pub prefix_length: u8,
    /// The prefix, in as many bytes as hold its bits.
    pub prefix: Vec<u8>,
    /// The routes to the prefix.
    pub entries: Vec<RIBEntryAddPath>,
}

/// What a [`RIB_AFI_ADDPATH`] holds, as mathematical values.
pub ghost struct RibAfiAddPathView {
    pub sequence_number: u32,
    pub prefix_length: u8,
    pub prefix: Seq<u8>,
    pub entries: Seq<RibEntryAddPathView>,
}

impl View for RIB_AFI_ADDPATH {
    type V = RibAfiAddPathView;

    open spec fn view(&self) -> RibAfiAddPathView {
        RibAfiAddPathView {
            sequence_number: self.sequence_number,
            prefix_length: self.prefix_length,
            prefix: self.prefix@,
            entries: RIBEntryAddPath::views(self.entries@),
        }
    }
}

impl RibAfiAddPathView {
    /// Whether the value can stand on the wire: the prefix has the bytes
    /// that hold its bits, the routes are no more than a 16-bit count can
    /// say, and each can stand on the wire.
    pub open spec fn wf(self) -> bool {
        &&& self.prefix.len() == prefix_bytes(self.prefix_length)
        &&& self.entries.len() <= 0xFFFF
        &&& RIBEntryAddPath::all_wf(self.entries)
    }

    /// The bytes that stand for the value.
    pub open spec fn wire(self) -> Seq<u8> {
        u32_bytes(self.sequence_number) + seq![self.prefix_length] + self.prefix + u16_bytes(
            self.entries.len() as u16,
        ) + RIBEntryAddPath::wire_many(self.entries)
    }

    /// Decoding the bytes of a value gives the value, and takes those bytes.
    pub proof fn lemma_decode_wire(self, s: Seq<u8>, at: int)
        requires
            self.wf(),
            holds(s, at, self.wire()),
        ensures
            RIB_AFI_ADDPATH::decode(s, at) == taken(self, self.wire().len()),
    {
        lemma_int_bytes_len();
        let part1 = u32_bytes(self.sequence_number);
        let part2 = seq![self.prefix_length];
        let part4 = u16_bytes(self.entries.len() as u16);
        let part5 = RIBEntryAddPath::wire_many(self.entries);
        lemma_holds_split(s, at, part1 + part2 + self.prefix + part4, part5);
        lemma_holds_split(s, at, part1 + part2 + self.prefix, part4);
        lemma_holds_split(s, at, part1 + part2, self.prefix);
        lemma_holds_split(s, at, part1, part2);
        lemma_be_u32_holds(s, at, self.sequence_number);
        lemma_u8_holds(s, at + 4, self.prefix_length);
        lemma_be_u16_holds(s, at + 5 + self.prefix.len(), self.entries.len() as u16);
        RIBEntryAddPath::lemma_decode_many_wire(self.entries, s, at + 7 + self.prefix.len());
    }
}

impl RIB_AFI_ADDPATH {
    /// What the bytes at `at` stand for: the sequence number; the prefix
    /// behind its length in bits, in the bytes that hold them; the number of
    /// routes, then the routes.
    pub open spec fn decode(s: Seq<u8>, at: int) -> Decoding<RibAfiAddPathView> {
        if !available(s, at, 5) {
            truncated(s, at)
        } else if !available(s, at + 5, prefix_bytes(s[at + 4]) + 2) {
            truncated(s, at)
        } else {
            let list = at + 7 + prefix_bytes(s[at + 4]);
            match RIBEntryAddPath::decode_many(s, list, be_u16(s, list - 2) as nat) {
                Err((e, k)) => failed(e, list - at + k),
                Ok((entries, n)) => Ok(
                    (
                        RibAfiAddPathView {
                            sequence_number: be_u32(s, at),
                            prefix_length: s[at + 4],
                            prefix: s.subrange(at + 5, list - 2),
                            entries,
                        },
                        (list - at + n) as nat,
                    ),
                ),
            }
        }
    }

    /// What is decoded can stand on the wire.
    pub proof fn lemma_decode_wf(s: Seq<u8>, at: int)
        ensures
            RIB_AFI_ADDPATH::decode(s, at) matches Ok((v, n)) ==> v.wf(),
    {
        if RIB_AFI_ADDPATH::decode(s, at) is Ok {
            let list = at + 7 + prefix_bytes(s[at + 4]);
            RIBEntryAddPath::lemma_decode_many_wf(s, list, be_u16(s, list - 2) as nat);
        }
    }

    /// Reads the routes to one prefix.
    pub fn parse(stream: &mut ByteStream) -> (r: Result<RIB_AFI_ADDPATH, DecodeError>)
        ensures
            decoded(
                r,
                RIB_AFI_ADDPATH::decode(old(stream).bytes(), old(stream).position() as int),
                old(stream),
                final(stream),
            ),
            r matches Ok(v) ==> v.prefix@.len() == prefix_bytes(v.prefix_length),
    {
        let sequence_number = stream.read_u32()?;
        let prefix_length = stream.read_u8()?;
        let prefix = stream.read_bytes((prefix_length as usize + 7) / 8)?;
        let entry_count = stream.read_u16()?;
        let entries = RIBEntryAddPath::parse_many(stream, entry_count)?;
        Ok(RIB_AFI_ADDPATH { sequence_number, prefix_length, prefix, entries })
    }
}

/// The routes to one prefix of an address family that the record itself
/// names. A peer may have several routes among them.
#[derive(Debug, PartialEq, Eq)]
#[allow(non_camel_case_types)]
pub struct RIB_GENERIC_ADDPATH {
    /// The number of the prefix in the dump; it wraps to zero.
    pub sequence_number: u32,
    /// The address family of the prefix.
    pub afi: AFI,
    /// The subsequent address family of the prefix.
    pub safi: u8,
    /// The network layer reachability information: the prefix.
    pub nlri: Vec<u8>,
    /// The routes to the prefix.
    pub entries: Vec<RIBEntryAddPath>,
}

/// What a [`RIB_GENERIC_ADDPATH`] holds, as mathematical values.
pub ghost struct RibGenericAddPathView {
    pub sequence_number: u32,
    pub afi: AFI,
    pub safi: u8,
    pub nlri: Seq<u8>,
    pub entries: Seq<RibEntryAddPathView>,
}

impl View for RIB_GENERIC_ADDPATH {
    type V = RibGenericAddPathView;

    open spec fn view(&self) -> RibGenericAddPathView {
        RibGenericAddPathView {
            sequence_number: self.sequence_number,
            afi: self.afi,
            safi: self.safi,
            nlri: self.nlri@,
            entries: RIBEntryAddPath::views(self.entries@),
        }
    }
}

impl RibGenericAddPathView {
    /// Whether the value can stand on the wire: the NLRI has the length
    /// that its families ask for, the routes are no more than a 16-bit
    /// count can say, and each can stand on the wire.
    pub open spec fn wf(self) -> bool {
        &&& if nlri_is_labeled(self.afi, self.safi) {
            self.nlri.len() <= 32
        } else {
            self.nlri.len() == self.afi.width()
        }
        &&& self.entries.len() <= 0xFFFF
        &&& RIBEntryAddPath::all_wf(self.entries)
    }

    /// The bytes that stand for the value. Where the NLRI is labeled, the
    /// length byte before it says the bits of its whole bytes.
    pub open spec fn wire(self) -> Seq<u8> {
        u32_bytes(self.sequence_number) + u16_bytes(self.afi.code()) + seq![self.safi]
            + nlri_head(self.afi, self.safi, self.nlri.len()) + self.nlri + u16_bytes(
            self.entries.len() as u16,
        ) + RIBEntryAddPath::wire_many(self.entries)
    }

    /// Decoding the bytes of a value gives the value, and takes those bytes.
    pub proof fn lemma_decode_wire(self, s: Seq<u8>, at: int)
        requires
            self.wf(),
            holds(s, at, self.wire()),
        ensures
            RIB_GENERIC_ADDPATH::decode(s, at) == taken(self, self.wire().len()),
    {
        lemma_int_bytes_len();
        let part1 = u32_bytes(self.sequence_number);
        let part2 = u16_bytes(self.afi.code());
        let part3 = seq![self.safi];
        let part4 = nlri_head(self.afi, self.safi, self.nlri.len());
        let part6 = u16_bytes(self.entries.len() as u16);
        let part7 = RIBEntryAddPath::wire_many(self.entries);
        lemma_holds_split(s, at, part1 + part2 + part3 + part4 + self.nlri + part6, part7);
        lemma_holds_split(s, at, part1 + part2 + part3 + part4 + self.nlri, part6);
        lemma_holds_split(s, at, part1 + part2 + part3 + part4, self.nlri);
        lemma_holds_split(s, at, part1 + part2 + part3, part4);
        lemma_holds_split(s, at, part1 + part2, part3);
        lemma_holds_split(s, at, part1, part2);
        lemma_be_u32_holds(s, at, self.sequence_number);
        lemma_be_u16_holds(s, at + 4, self.afi.code());
        lemma_u8_holds(s, at + 6, self.safi);
        if nlri_is_labeled(self.afi, self.safi) {
            lemma_u8_holds(s, at + 7, nlri_bits(self.nlri.len()));
        }
        let start = nlri_start(at, self.afi, self.safi);
        lemma_be_u16_holds(s, start + self.nlri.len(), self.entries.len() as u16);
        RIBEntryAddPath::lemma_decode_many_wire(self.entries, s, start + self.nlri.len() + 2);
    }
}

impl RIB_GENERIC_ADDPATH {
    /// What the bytes at `at` stand for: the sequence number, the address
    /// family code and the subsequent address family; the NLRI, whose
    /// length no field says outright (see [`nlri_len`]); the number of
    /// routes, then the routes.
    pub open spec fn decode(s: Seq<u8>, at: int) -> Decoding<RibGenericAddPathView> {
        if !available(s, at, 6) {
            truncated(s, at)
        } else {
            match AFI::of_code(be_u16(s, at + 4)) {
                None => failed(DecodeError::InvalidAfi(be_u16(s, at + 4)), 6),
                Some(afi) => if !available(s, at + 6, 1) {
                    truncated(s, at)
                } else if !available(s, at + 7, nlri_start(at, afi, s[at + 6]) - (at + 7)) {
                    truncated(s, at)
                } else {
                    let start = nlri_start(at, afi, s[at + 6]);
                    let list = start + nlri_len(s, at, afi, s[at + 6]) + 2;
                    if !available(s, start, list - start) {
                        truncated(s, at)
                    } else {
                        match RIBEntryAddPath::decode_many(s, list, be_u16(s, list - 2) as nat) {
                            Err((e, k)) => failed(e, list - at + k),
                            Ok((entries, n)) => Ok(
                                (
                                    RibGenericAddPathView {
                                        sequence_number: be_u32(s, at),
                                        afi,
                                        safi: s[at + 6],
                                        nlri: s.subrange(start, list - 2),
                                        entries,
                                    },
                                    (list - at + n) as nat,
                                ),
                            ),
                        }
                    }
                },
            }
        }
    }

    /// What is decoded can stand on the wire.
    pub proof fn lemma_decode_wf(s: Seq<u8>, at: int)
        ensures
            RIB_GENERIC_ADDPATH::decode(s, at) matches Ok((v, n)) ==> v.wf(),
    {
        if RIB_GENERIC_ADDPATH::decode(s, at) is Ok {
            let afi = AFI::of_code(be_u16(s, at + 4))->Some_0;
            let start = nlri_start(at, afi, s[at + 6]);
            let list = start + nlri_len(s, at, afi, s[at + 6]) + 2;
            RIBEntryAddPath::lemma_decode_many_wf(s, list, be_u16(s, list - 2) as nat);
        }
    }

    /// Reads the routes to one prefix of any family. For IPv4 with the
    /// subsequent family 128, one length byte stands before the NLRI; for
    /// IPv4 otherwise the NLRI has 4 bytes, and for IPv6 it has 16.
    pub fn parse(stream: &mut ByteStream) -> (r: Result<RIB_GENERIC_ADDPATH, DecodeError>)
        ensures
            decoded(
                r,
                RIB_GENERIC_ADDPATH::decode(old(stream).bytes(), old(stream).position() as int),
                old(stream),
                final(stream),
            ),
            r matches Ok(v) ==> {
                let s = old(stream).bytes();
                let at = old(stream).position() as int;
                &&& v.afi == AFI::IPV6 ==> v.nlri@ == s.subrange(at + 7, at + 7 + 16)
                &&& v.afi == AFI::IPV4 && v.safi != 128 ==> v.nlri@ == s.subrange(
                    at + 7,
                    at + 7 + 4,
                )
                &&& v.afi == AFI::IPV4 && v.safi == 128 ==> v.nlri@ == s.subrange(
                    at + 8,
                    at + 8 + prefix_bytes(s[at + 7]),
                )
            },
    {
        let sequence_number = stream.read_u32()?;
        let code = stream.read_u16()?;
        let afi = AFI::from(code)?;
        let safi = stream.read_u8()?;
        let length: usize = match afi {
            AFI::IPV4 => {
                if safi == 128 {
                    (stream.read_u8()? as usize + 7) / 8
                } else {
                    4
                }
            },
            AFI::IPV6 => 16,
        };
        let nlri = stream.read_bytes(length)?;
        let entry_count = stream.read_u16()?;
        let entries = RIBEntryAddPath::parse_many(stream, entry_count)?;
        Ok(RIB_GENERIC_ADDPATH { sequence_number, afi, safi, nlri, entries })
    }
}

} // verus!
