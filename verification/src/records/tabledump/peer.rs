use crate::addr::IpAddress;
use crate::AFI;
use crate::error::DecodeError;
use crate::stream::ByteStream;
use crate::stream::decoded;
use crate::wire::asn_at;
use crate::wire::asn_bytes;
use crate::wire::asn_width;
use crate::wire::available;
use crate::wire::be_u16;
use crate::wire::be_u32;
use crate::wire::Decoding;
use crate::wire::holds;
use crate::wire::lemma_be_u16_holds;
use crate::wire::lemma_be_u32_holds;
use crate::wire::lemma_holds_split;
use crate::wire::lemma_int_bytes_len;
use crate::wire::lemma_u8_holds;
use crate::wire::failed;
use crate::wire::taken;
use crate::wire::truncated;
use crate::wire::u16_bytes;
use crate::wire::u32_bytes;
use vstd::prelude::*;
use vstd::utf8::decode_utf8;
use vstd::utf8::encode_utf8;
use vstd::utf8::encode_utf8_decode_utf8;
use vstd::utf8::encode_utf8_valid_utf8;
use vstd::utf8::valid_utf8;

verus! {

/// A peer of the collector, as the peer index table lists it.
#[derive(Clone, Copy, Debug, PartialEq, Eq, Structural)]
pub struct PeerEntry {
    /// The tag of the entry. Bit 0 says that the address is IPv6, bit 1 that
    /// the AS number has 32 bits.
    pub peer_type: u8,
    /// The BGP identifier of the peer.
    pub peer_bgp_id: u32,
    /// The address of the peer.
    pub peer_ip_address: IpAddress,
    /// The AS number of the peer.
    pub peer_as: u32,
}

impl View for PeerEntry {
    type V = PeerEntry;

    open spec fn view(&self) -> PeerEntry {
        *self
    }
}

impl PeerEntry {
    /// The family of the address behind a tag: bit 0 set is IPv6.
    pub open spec fn family(peer_type: u8) -> AFI {
        if peer_type & 1 != 0 {
            AFI::IPV6
        } else {
            AFI::IPV4
        }
    }

    /// Whether the AS number behind a tag has 32 bits: bit 1 set.
    pub open spec fn has_as4(peer_type: u8) -> bool {
        peer_type & 2 != 0
    }

    /// The size of an entry on the wire. The tag alone decides it: a byte
    /// for the tag, four for the identifier, an address and an AS number of
    /// the widths that the tag's bits 0 and 1 select.
    pub open spec fn wire_len(peer_type: u8) -> int {
        5 + PeerEntry::family(peer_type).width() + asn_width(PeerEntry::has_as4(peer_type))
    }

    /// What the bytes at `at` stand for.
    pub open spec fn decode(s: Seq<u8>, at: int) -> Decoding<PeerEntry> {
        if !available(s, at, 1) {
            truncated(s, at)
        } else if !available(s, at, PeerEntry::wire_len(s[at])) {
            truncated(s, at)
        } else {
            let afi = PeerEntry::family(s[at]);
            Ok(
                (
                    PeerEntry {
                        peer_type: s[at],
                        peer_bgp_id: be_u32(s, at + 1),
                        peer_ip_address: IpAddress::at(s, at + 5, afi),
                        peer_as: asn_at(s, at + 5 + afi.width(), PeerEntry::has_as4(s[at])),
                    },
                    PeerEntry::wire_len(s[at]) as nat,
                ),
            )
        }
    }

    /// Whether the value can stand on the wire: the address is of the family
    /// that the tag selects, and the AS number fits the width that it
    /// selects.
    pub open spec fn wf(self) -> bool {
        &&& self.peer_ip_address.afi() == PeerEntry::family(self.peer_type)
        &&& !PeerEntry::has_as4(self.peer_type) ==> self.peer_as <= 0xFFFF
    }

    /// The bytes that stand for the value.
    pub open spec fn wire(self) -> Seq<u8> {
        seq![self.peer_type] + u32_bytes(self.peer_bgp_id) + self.peer_ip_address.wire()
            + asn_bytes(self.peer_as, PeerEntry::has_as4(self.peer_type))
    }

    /// What is decoded can stand on the wire.
    pub proof fn lemma_decode_wf(s: Seq<u8>, at: int)
        ensures
            PeerEntry::decode(s, at) matches Ok((v, n)) ==> v.wf(),
    {
    }

    /// Decoding the bytes of a value gives the value, and takes those bytes.
    pub proof fn lemma_decode_wire(self, s: Seq<u8>, at: int)
        requires
            self.wf(),
            holds(s, at, self.wire()),
        ensures
            self.wire().len() == PeerEntry::wire_len(self.peer_type),
            PeerEntry::decode(s, at) == taken(self, self.wire().len()),
    {
        lemma_int_bytes_len();
        let as4 = PeerEntry::has_as4(self.peer_type);
        let part1 = seq![self.peer_type];
        let part2 = u32_bytes(self.peer_bgp_id);
        let part3 = self.peer_ip_address.wire();
        let part4 = asn_bytes(self.peer_as, as4);
        lemma_holds_split(s, at, part1 + part2 + part3, part4);
        lemma_holds_split(s, at, part1 + part2, part3);
        lemma_holds_split(s, at, part1, part2);
        lemma_u8_holds(s, at, self.peer_type);
        lemma_be_u32_holds(s, at + 1, self.peer_bgp_id);
        self.peer_ip_address.lemma_at_wire(s, at + 5);
        let a = at + 5 + self.peer_ip_address.afi().width();
        if as4 {
            lemma_be_u32_holds(s, a, self.peer_as);
        } else {
            lemma_be_u16_holds(s, a, self.peer_as as u16);
        }
    }

    /// Reads one entry of the peer index table. The tag byte alone decides
    /// the widths of the address and of the AS number behind it.
    pub fn parse(stream: &mut ByteStream) -> (r: Result<PeerEntry, DecodeError>)
        ensures
            decoded(
                r,
                PeerEntry::decode(old(stream).bytes(), old(stream).position() as int),
                old(stream),
                final(stream),
            ),
            r matches Ok(p) ==> {
                &&& final(stream).position() - old(stream).position() == PeerEntry::wire_len(
                    p.peer_type,
                )
                &&& p.peer_ip_address.afi() == PeerEntry::family(p.peer_type)
                &&& !PeerEntry::has_as4(p.peer_type) ==> p.peer_as <= 0xFFFF
            },
    {
        let peer_type = stream.read_u8()?;
        let ipv6 = peer_type & 1 != 0;
        let as4 = peer_type & 2 != 0;
        let peer_bgp_id = stream.read_u32()?;
        let peer_ip_address = if ipv6 {
            IpAddress::parse(AFI::IPV6, stream)?
        } else {
            IpAddress::parse(AFI::IPV4, stream)?
        };
        let peer_as = if as4 {
            stream.read_u32()?
        } else {
            stream.read_u16()? as u32
        };
        Ok(PeerEntry { peer_type, peer_bgp_id, peer_ip_address, peer_as })
    }

    /// What `count` entries, one after the other from `at` on, stand for,
    /// with the bytes that they take together. The first entry that fails
    /// gives the error.
    pub open spec fn decode_many(s: Seq<u8>, at: int, count: nat) -> Decoding<Seq<PeerEntry>>
        decreases count,
    {
        if count == 0 {
            Ok((Seq::empty(), 0nat))
        } else {
            match PeerEntry::decode_many(s, at, (count - 1) as nat) {
                Err(e) => Err(e),
                Ok((entries, n)) => match PeerEntry::decode(s, at + n) {
                    Err((e, k)) => Err((e, n + k)),
                    Ok((entry, m)) => Ok((entries.push(entry), n + m)),
                },
            }
        }
    }

    /// An error among the first entries is the error of every longer list.
    pub proof fn lemma_decode_many_err(s: Seq<u8>, at: int, i: nat, count: nat)
        requires
            i <= count,
            PeerEntry::decode_many(s, at, i) is Err,
        ensures
            PeerEntry::decode_many(s, at, count) == PeerEntry::decode_many(s, at, i),
        decreases count,
    {
        if i < count {
            PeerEntry::lemma_decode_many_err(s, at, i, (count - 1) as nat);
        }
    }

    /// Entries that are decoded are as many as asked for, and each can stand
    /// on the wire.
    pub proof fn lemma_decode_many_wf(s: Seq<u8>, at: int, count: nat)
        ensures
            PeerEntry::decode_many(s, at, count) matches Ok((v, n)) ==> v.len() == count
                && PeerEntry::all_wf(v),
        decreases count,
    {
        if count > 0 {
            PeerEntry::lemma_decode_many_wf(s, at, (count - 1) as nat);
        }
    }

    /// Whether each of the entries can stand on the wire.
    pub open spec fn all_wf(entries: Seq<PeerEntry>) -> bool {
        forall|i: int| 0 <= i < entries.len() ==> (#[trigger] entries[i]).wf()
    }

    /// The bytes that stand for the entries, one after the other.
    pub open spec fn wire_many(entries: Seq<PeerEntry>) -> Seq<u8>
        decreases entries.len(),
    {
        if entries.len() == 0 {
            Seq::empty()
        } else {
            PeerEntry::wire_many(entries.drop_last()) + entries.last().wire()
        }
    }

    /// Decoding the bytes of a list of entries gives the list, and takes
    /// those bytes.
    pub proof fn lemma_decode_many_wire(entries: Seq<PeerEntry>, s: Seq<u8>, at: int)
        requires
            PeerEntry::all_wf(entries),
            holds(s, at, PeerEntry::wire_many(entries)),
        ensures
            PeerEntry::decode_many(s, at, entries.len()) == taken(
                entries,
                PeerEntry::wire_many(entries).len(),
            ),
        decreases entries.len(),
    {
        if entries.len() == 0 {
            assert(entries =~= Seq::empty());
        } else {
            let front = entries.drop_last();
            let last = entries.last();
            assert(PeerEntry::all_wf(front)) by {
                assert forall|i: int| 0 <= i < front.len() implies (#[trigger] front[i]).wf() by {
                    assert(entries[i].wf());
                }
            }
            lemma_holds_split(s, at, PeerEntry::wire_many(front), last.wire());
            PeerEntry::lemma_decode_many_wire(front, s, at);
            last.lemma_decode_wire(s, at + PeerEntry::wire_many(front).len());
            assert(front.push(last) =~= entries);
        }
    }

    /// Reads `count` entries of the peer index table.
    pub fn parse_many(stream: &mut ByteStream, count: u16) -> (r: Result<
        Vec<PeerEntry>,
        DecodeError,
    >)
        ensures
            decoded(
                r,
                PeerEntry::decode_many(
                    old(stream).bytes(),
                    old(stream).position() as int,
                    count as nat,
                ),
                old(stream),
                final(stream),
            ),
    {
        let ghost s = stream.bytes();
        let ghost at = stream.position() as int;
        let mut entries: Vec<PeerEntry> = Vec::with_capacity(count as usize);
        let mut i: u16 = 0;
        while i < count
            invariant
                i <= count,
                s == old(stream).bytes(),
                at == old(stream).position(),
                stream.bytes() == s,
                at <= stream.position(),
                PeerEntry::decode_many(s, at, i as nat) == taken(
                    entries@,
                    (stream.position() - at) as nat,
                ),
            decreases count - i,
        {
            match PeerEntry::parse(stream) {
                Ok(entry) => {
                    entries.push(entry);
                },
                Err(e) => {
                    proof {
                        PeerEntry::lemma_decode_many_err(s, at, (i + 1) as nat, count as nat);
                    }
                    return Err(e);
                },
            }
            i = i + 1;
        }
        Ok(entries)
    }
}

/// The text that `String::from_utf8_lossy` makes of bytes: each run that is
/// not UTF-8 stands in it as U+FFFD.
pub uninterp spec fn utf8_lossy(bytes: Seq<u8>) -> Seq<char>;

/// The text that bytes stand for when what is not UTF-8 in them is repaired:
/// bytes that are UTF-8 stand for the characters that they encode.
pub open spec fn lossy_text(bytes: Seq<u8>) -> Seq<char> {
    if valid_utf8(bytes) {
        decode_utf8(bytes)
    } else {
        utf8_lossy(bytes)
    }
}

/// `String::from_utf8_lossy` of std, its result made an owned `String`. The
/// result is a function of the bytes alone, and bytes that are valid UTF-8
/// come out as the text that they encode, unchanged.
#[verifier::external_body]
pub(crate) fn text_from_utf8_lossy(bytes: &[u8]) -> (text: String)
    ensures
        text@ == utf8_lossy(bytes@),
        valid_utf8(bytes@) ==> text@ == decode_utf8(bytes@),
{
    String::from_utf8_lossy(bytes).into_owned()
}

/// The peer index table: the collector's identifier, an optional name of the
/// view, and the peers that the RIB entries of the same file refer to by
/// index.
#[derive(Debug, PartialEq, Eq)]
#[allow(non_camel_case_types)]
pub struct PEER_INDEX_TABLE {
    /// The BGP identifier of the collector.
    pub collector_id: u32,
    /// The name of the view; empty where there is none.
    pub view_name: String,
    /// The peers, in the order of their indices.
    pub peer_entries: Vec<PeerEntry>,
}

/// What a [`PEER_INDEX_TABLE`] holds, as mathematical values.
pub ghost struct PeerIndexTableView {
    pub collector_id: u32,
    pub view_name: Seq<char>,
    pub peer_entries: Seq<PeerEntry>,
}

impl View for PEER_INDEX_TABLE {
    type V = PeerIndexTableView;

    open spec fn view(&self) -> PeerIndexTableView {
        PeerIndexTableView {
            collector_id: self.collector_id,
            view_name: self.view_name@,
            peer_entries: self.peer_entries@,
        }
    }
}

impl PeerIndexTableView {
    /// Whether the name, encoded as UTF-8, fits behind a 16-bit length.
    pub open spec fn name_fits(self) -> bool {
        encode_utf8(self.view_name).len() <= 0xFFFF
    }

    /// Whether the value can stand on the wire: the name fits, the peers are
    /// no more than a 16-bit count can say, and each can stand on the wire.
    pub open spec fn wf(self) -> bool {
        &&& self.name_fits()
        &&& self.peer_entries.len() <= 0xFFFF
        &&& PeerEntry::all_wf(self.peer_entries)
    }

    /// The bytes that stand for the value: the identifier; the name in
    /// UTF-8 behind its length; the peers behind their count.
    pub open spec fn wire(self) -> Seq<u8> {
        u32_bytes(self.collector_id) + u16_bytes(encode_utf8(self.view_name).len() as u16)
            + encode_utf8(self.view_name) + u16_bytes(self.peer_entries.len() as u16)
            + PeerEntry::wire_many(self.peer_entries)
    }

    /// Decoding the bytes of a value gives the value, and takes those bytes.
    pub proof fn lemma_decode_wire(self, s: Seq<u8>, at: int)
        requires
            self.wf(),
            holds(s, at, self.wire()),
        ensures
            PEER_INDEX_TABLE::decode(s, at) == taken(self, self.wire().len()),
    {
        lemma_int_bytes_len();
        let name = encode_utf8(self.view_name);
        let part1 = u32_bytes(self.collector_id);
        let part2 = u16_bytes(name.len() as u16);
        let part4 = u16_bytes(self.peer_entries.len() as u16);
        let part5 = PeerEntry::wire_many(self.peer_entries);
        lemma_holds_split(s, at, part1 + part2 + name + part4, part5);
        lemma_holds_split(s, at, part1 + part2 + name, part4);
        lemma_holds_split(s, at, part1 + part2, name);
        lemma_holds_split(s, at, part1, part2);
        lemma_be_u32_holds(s, at, self.collector_id);
        lemma_be_u16_holds(s, at + 4, name.len() as u16);
        lemma_be_u16_holds(s, at + 6 + name.len(), self.peer_entries.len() as u16);
        PeerEntry::lemma_decode_many_wire(self.peer_entries, s, at + 8 + name.len());
        encode_utf8_valid_utf8(self.view_name);
        encode_utf8_decode_utf8(self.view_name);
    }
}

impl PEER_INDEX_TABLE {
    /// What the bytes at `at` stand for: the collector's identifier; the
    /// length of the view's name in bytes, then the name, repaired where it
    /// is not UTF-8; the number of peers, then the peers.
    pub open spec fn decode(s: Seq<u8>, at: int) -> Decoding<PeerIndexTableView> {
        if !available(s, at, 6) {
            truncated(s, at)
        } else if !available(s, at + 6, be_u16(s, at + 4) + 2) {
            truncated(s, at)
        } else {
            let peers = at + 8 + be_u16(s, at + 4);
            match PeerEntry::decode_many(s, peers, be_u16(s, peers - 2) as nat) {
                Err((e, k)) => failed(e, peers - at + k),
                Ok((peer_entries, n)) => Ok(
                    (
                        PeerIndexTableView {
                            collector_id: be_u32(s, at),
                            view_name: lossy_text(s.subrange(at + 6, peers - 2)),
                            peer_entries,
                        },
                        (peers - at + n) as nat,
                    ),
                ),
            }
        }
    }

    /// What is decoded can stand on the wire, if its name does: a name that
    /// was repaired may have grown beyond what a 16-bit length can say.
    pub proof fn lemma_decode_wf(s: Seq<u8>, at: int)
        ensures
            PEER_INDEX_TABLE::decode(s, at) matches Ok((v, n)) ==> (v.name_fits() ==> v.wf()),
    {
        if PEER_INDEX_TABLE::decode(s, at) is Ok {
            let peers = at + 8 + be_u16(s, at + 4);
            PeerEntry::lemma_decode_many_wf(s, peers, be_u16(s, peers - 2) as nat);
        }
    }

    /// Reads a peer index table. A name that is not valid UTF-8 is repaired,
    /// never refused.
    pub fn parse(stream: &mut ByteStream) -> (r: Result<PEER_INDEX_TABLE, DecodeError>)
        ensures
            decoded(
                r,
                PEER_INDEX_TABLE::decode(old(stream).bytes(), old(stream).position() as int),
                old(stream),
                final(stream),
            ),
    {
        let collector_id = stream.read_u32()?;
        let name_length = stream.read_u16()?;
        let name = stream.read_bytes(name_length as usize)?;
        let view_name = text_from_utf8_lossy(name.as_slice());
        let peer_count = stream.read_u16()?;
        let peer_entries = PeerEntry::parse_many(stream, peer_count)?;
        Ok(PEER_INDEX_TABLE { collector_id, view_name, peer_entries })
    }
}

} // verus!
